use builder::classify::{classify, Classification, ClassifyError, Directive, interpret, InterpretError};
use builder::model::{FieldDescription, MetaPair, MetaValue, RecordDescription, RecordShape, TypeShape};
use builder::runtime::{BuildError, BuilderInstance, FieldValue};
use builder::synth::{generate, ExtractRule, GenerateError, MethodKind, StorageKind};

fn plain(name: &str) -> TypeShape {
    TypeShape::Plain(name.to_string())
}

fn generic_one(name: &str, arg: TypeShape) -> TypeShape {
    TypeShape::GenericOne(name.to_string(), Box::new(arg))
}

fn field(name: &str, ty: TypeShape) -> FieldDescription {
    FieldDescription { name: name.to_string(), declared_type: ty, annotation: None }
}

fn field_each(name: &str, ty: TypeShape, method: &str) -> FieldDescription {
    FieldDescription {
        name: name.to_string(),
        declared_type: ty,
        annotation: Some(MetaPair {
            key: "each".to_string(),
            value: MetaValue::StrLit(method.to_string()),
        }),
    }
}

/// The record of the worked example: a required executable, an optional
/// arguments field, and an environment list accumulated through `add_env`.
fn command_record() -> RecordDescription {
    RecordDescription {
        name: "Command".to_string(),
        shape: RecordShape::Named(vec![
            field("executable", plain("String")),
            field("args", generic_one("Option", plain("String"))),
            field_each("env", generic_one("Vec", plain("String")), "add_env"),
        ]),
    }
}

fn instance_of(record: &RecordDescription) -> BuilderInstance {
    BuilderInstance::instantiate(generate(record).unwrap())
}

#[test]
fn classify_plain_is_required() {
    let r = classify(&plain("String"), &None);
    assert_eq!(r, Ok(Classification::Required(plain("String"))));
}

#[test]
fn classify_optional_unwraps_inner() {
    let r = classify(&generic_one("Option", plain("String")), &None);
    assert_eq!(r, Ok(Classification::Optional(plain("String"))));
}

#[test]
fn classify_other_generic_is_required_verbatim() {
    let ty = generic_one("Vec", plain("String"));
    let r = classify(&ty, &None);
    assert_eq!(r, Ok(Classification::Required(ty)));
}

#[test]
fn classify_annotated_unwraps_element() {
    let ann = Some(MetaPair {
        key: "each".to_string(),
        value: MetaValue::StrLit("add_env".to_string()),
    });
    let r = classify(&generic_one("Vec", plain("String")), &ann);
    assert_eq!(
        r,
        Ok(Classification::Accumulating(plain("String"), "add_env".to_string()))
    );
}

#[test]
fn classify_annotated_plain_type_mismatch() {
    let ann = Some(MetaPair {
        key: "each".to_string(),
        value: MetaValue::StrLit("add_env".to_string()),
    });
    let r = classify(&plain("String"), &ann);
    assert_eq!(r, Err(ClassifyError::AnnotationTypeMismatch));
}

#[test]
fn interpret_wrong_key_is_malformed() {
    let m = MetaPair { key: "every".to_string(), value: MetaValue::StrLit("x".to_string()) };
    assert_eq!(interpret(&m), Err(InterpretError::MalformedAnnotation));
}

#[test]
fn interpret_non_string_value_is_malformed() {
    let m = MetaPair { key: "each".to_string(), value: MetaValue::OtherExpr };
    assert_eq!(interpret(&m), Err(InterpretError::MalformedAnnotation));
}

#[test]
fn interpret_directive() {
    let m = MetaPair { key: "each".to_string(), value: MetaValue::StrLit("arg".to_string()) };
    assert_eq!(interpret(&m), Ok(Directive::AccumulateAs("arg".to_string())));
}

#[test]
fn generate_rejects_tuple_record() {
    let r = RecordDescription { name: "Pair".to_string(), shape: RecordShape::Tuple };
    assert_eq!(generate(&r), Err(GenerateError::UnsupportedRecordShape));
}

#[test]
fn generate_rejects_unit_record() {
    let r = RecordDescription { name: "Unit".to_string(), shape: RecordShape::Unit };
    assert_eq!(generate(&r), Err(GenerateError::UnsupportedRecordShape));
}

#[test]
fn generate_rejects_non_aggregate() {
    let r = RecordDescription { name: "Choice".to_string(), shape: RecordShape::NotAggregate };
    assert_eq!(generate(&r), Err(GenerateError::UnsupportedRecordShape));
}

#[test]
fn generate_rejects_malformed_annotation() {
    let r = RecordDescription {
        name: "Command".to_string(),
        shape: RecordShape::Named(vec![FieldDescription {
            name: "env".to_string(),
            declared_type: generic_one("Vec", plain("String")),
            annotation: Some(MetaPair {
                key: "every".to_string(),
                value: MetaValue::StrLit("add_env".to_string()),
            }),
        }]),
    };
    assert_eq!(generate(&r), Err(GenerateError::MalformedAnnotation));
}

#[test]
fn generate_rejects_annotation_on_plain_type() {
    let r = RecordDescription {
        name: "Command".to_string(),
        shape: RecordShape::Named(vec![field_each("env", plain("String"), "add_env")]),
    };
    assert_eq!(generate(&r), Err(GenerateError::AnnotationTypeMismatch));
}

#[test]
fn generate_reports_first_failing_field() {
    let r = RecordDescription {
        name: "Command".to_string(),
        shape: RecordShape::Named(vec![
            field_each("env", plain("String"), "add_env"),
            FieldDescription {
                name: "vars".to_string(),
                declared_type: generic_one("Vec", plain("String")),
                annotation: Some(MetaPair { key: "each".to_string(), value: MetaValue::OtherExpr }),
            },
        ]),
    };
    assert_eq!(generate(&r), Err(GenerateError::AnnotationTypeMismatch));
}

#[test]
fn generate_bundle_shape() {
    let b = generate(&command_record()).unwrap();
    assert_eq!(b.record_name, "Command".to_string());
    assert_eq!(b.builder_name, "CommandBuilder".to_string());
    assert_eq!(b.slots.len(), 3);
    assert_eq!(b.slots[0].name, "executable".to_string());
    assert_eq!(b.slots[0].storage, StorageKind::OptionalSlot(plain("String")));
    assert_eq!(b.slots[1].name, "args".to_string());
    assert_eq!(b.slots[1].storage, StorageKind::OptionalSlot(plain("String")));
    assert_eq!(b.slots[2].name, "env".to_string());
    assert_eq!(b.slots[2].storage, StorageKind::VectorSlot(plain("String")));
    assert_eq!(b.methods.len(), 3);
    assert_eq!(b.methods[0].name, "executable".to_string());
    assert_eq!(b.methods[0].kind, MethodKind::Overwrite);
    assert_eq!(b.methods[1].name, "args".to_string());
    assert_eq!(b.methods[1].kind, MethodKind::Overwrite);
    assert_eq!(b.methods[2].name, "add_env".to_string());
    assert_eq!(b.methods[2].kind, MethodKind::Append);
    assert_eq!(
        b.extracts,
        vec![ExtractRule::TakeRequired, ExtractRule::TakeOptional, ExtractRule::SnapshotSequence]
    );
}

#[test]
fn command_example_builds() {
    let mut inst = instance_of(&command_record());
    assert!(inst.apply(&"executable".to_string(), "ls".to_string()));
    assert!(inst.apply(&"add_env".to_string(), "PATH".to_string()));
    assert!(inst.apply(&"add_env".to_string(), "PATH".to_string()));
    let rec = inst.build().unwrap();
    assert_eq!(rec.fields.len(), 3);
    assert_eq!(rec.fields[0], FieldValue::Single("ls".to_string()));
    assert_eq!(rec.fields[1], FieldValue::OptionalValue(None));
    assert_eq!(
        rec.fields[2],
        FieldValue::Sequence(vec!["PATH".to_string(), "PATH".to_string()])
    );
}

#[test]
fn command_example_missing_executable() {
    let mut inst = instance_of(&command_record());
    let r = inst.build();
    assert_eq!(r, Err(BuildError::MissingRequiredField("executable".to_string())));
}

#[test]
fn setters_in_any_order() {
    let record = RecordDescription {
        name: "Pair".to_string(),
        shape: RecordShape::Named(vec![
            field("first", plain("String")),
            field("second", plain("String")),
        ]),
    };
    let mut inst = instance_of(&record);
    assert!(inst.apply(&"second".to_string(), "b".to_string()));
    assert!(inst.apply(&"first".to_string(), "a".to_string()));
    let rec = inst.build().unwrap();
    assert_eq!(rec.fields[0], FieldValue::Single("a".to_string()));
    assert_eq!(rec.fields[1], FieldValue::Single("b".to_string()));
}

#[test]
fn missing_field_names_first_unset() {
    let record = RecordDescription {
        name: "Pair".to_string(),
        shape: RecordShape::Named(vec![
            field("first", plain("String")),
            field("second", plain("String")),
        ]),
    };
    let mut inst = instance_of(&record);
    assert!(inst.apply(&"first".to_string(), "a".to_string()));
    let r = inst.build();
    assert_eq!(r, Err(BuildError::MissingRequiredField("second".to_string())));
}

#[test]
fn optional_last_write_wins() {
    let mut inst = instance_of(&command_record());
    assert!(inst.apply(&"executable".to_string(), "ls".to_string()));
    assert!(inst.apply(&"args".to_string(), "-a".to_string()));
    assert!(inst.apply(&"args".to_string(), "-l".to_string()));
    let rec = inst.build().unwrap();
    assert_eq!(rec.fields[1], FieldValue::OptionalValue(Some("-l".to_string())));
}

#[test]
fn optional_never_set_is_absent() {
    let mut inst = instance_of(&command_record());
    assert!(inst.apply(&"executable".to_string(), "ls".to_string()));
    let rec = inst.build().unwrap();
    assert_eq!(rec.fields[1], FieldValue::OptionalValue(None));
}

#[test]
fn accumulator_collects_in_call_order() {
    let mut inst = instance_of(&command_record());
    assert!(inst.apply(&"executable".to_string(), "env".to_string()));
    assert!(inst.apply(&"add_env".to_string(), "HOME".to_string()));
    assert!(inst.apply(&"add_env".to_string(), "PATH".to_string()));
    assert!(inst.apply(&"add_env".to_string(), "TERM".to_string()));
    let rec = inst.build().unwrap();
    assert_eq!(
        rec.fields[2],
        FieldValue::Sequence(vec!["HOME".to_string(), "PATH".to_string(), "TERM".to_string()])
    );
}

#[test]
fn accumulator_zero_calls_yields_empty() {
    let mut inst = instance_of(&command_record());
    assert!(inst.apply(&"executable".to_string(), "ls".to_string()));
    let rec = inst.build().unwrap();
    assert_eq!(rec.fields[2], FieldValue::Sequence(Vec::new()));
}

#[test]
fn build_twice_drains_required_but_not_accumulated() {
    let mut inst = instance_of(&command_record());
    assert!(inst.apply(&"executable".to_string(), "ls".to_string()));
    assert!(inst.apply(&"add_env".to_string(), "PATH".to_string()));
    let first = inst.build().unwrap();
    assert_eq!(first.fields[0], FieldValue::Single("ls".to_string()));
    let second = inst.build();
    assert_eq!(second, Err(BuildError::MissingRequiredField("executable".to_string())));
}

#[test]
fn build_twice_reproduces_accumulated_sequence() {
    let record = RecordDescription {
        name: "Env".to_string(),
        shape: RecordShape::Named(vec![
            field("label", generic_one("Option", plain("String"))),
            field_each("vars", generic_one("Vec", plain("String")), "add_var"),
        ]),
    };
    let mut inst = instance_of(&record);
    assert!(inst.apply(&"label".to_string(), "dev".to_string()));
    assert!(inst.apply(&"add_var".to_string(), "HOME".to_string()));
    let first = inst.build().unwrap();
    assert_eq!(first.fields[0], FieldValue::OptionalValue(Some("dev".to_string())));
    assert_eq!(first.fields[1], FieldValue::Sequence(vec!["HOME".to_string()]));
    let second = inst.build().unwrap();
    assert_eq!(second.fields[0], FieldValue::OptionalValue(None));
    assert_eq!(second.fields[1], FieldValue::Sequence(vec!["HOME".to_string()]));
}

#[test]
fn unknown_method_changes_nothing() {
    let mut inst = instance_of(&command_record());
    assert!(!inst.apply(&"missing_method".to_string(), "x".to_string()));
    assert!(inst.apply(&"executable".to_string(), "ls".to_string()));
    let rec = inst.build().unwrap();
    assert_eq!(rec.fields[0], FieldValue::Single("ls".to_string()));
}

#[test]
fn missing_field_message_names_field_twice() {
    let e = BuildError::MissingRequiredField("executable".to_string());
    assert_eq!(
        e.message(),
        "executable is not set; call the method executable to supply it.".to_string()
    );
}
