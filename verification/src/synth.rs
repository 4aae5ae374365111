//! The builder shape, method and finalizer synthesizers, and the generator
//! that assembles the full declaration bundle.
//!
//! The bundle holds one storage slot, one mutator method and one extraction
//! rule per record field, all in field declaration order: the method and the
//! rule at position `i` belong to the slot at position `i`.  A mutator's
//! argument type is the element type of its slot's storage, so the methods
//! carry no type of their own.

use vstd::prelude::*;

use crate::classify::{
    classify, classify_spec, Classification, ClassifyError,
};
use crate::model::{
    clone_shape, FieldDescription, RecordDescription, RecordShape, TypeShape,
};

verus! {

/// The storage of one builder slot, together with its element type.
#[derive(Debug, PartialEq, Eq)]
pub enum StorageKind {
    /// An optional holding the element type, initially absent.
    OptionalSlot(TypeShape),
    /// A growable sequence of the element type, initially empty.
    VectorSlot(TypeShape),
}

/// One storage slot of the builder, named after its record field.
#[derive(Debug, PartialEq, Eq)]
pub struct StorageSlot {
    pub name: String,
    pub storage: StorageKind,
}

/// What a mutator method does to its slot.
#[derive(Clone, Copy, Debug, PartialEq, Eq)]
pub enum MethodKind {
    /// Overwrite the slot with the present value of the argument.
    Overwrite,
    /// Append the argument to the slot's sequence in place.
    Append,
}

/// One mutator method of the builder.  Its argument type is the element
/// type of the slot it mutates.
#[derive(Debug, PartialEq, Eq)]
pub struct MethodDescription {
    pub name: String,
    pub kind: MethodKind,
}

/// How the finalize operation extracts one field from its slot.
#[derive(Clone, Copy, Debug, PartialEq, Eq)]
pub enum ExtractRule {
    /// Take ownership, clearing the slot; an absent value is an error.
    TakeRequired,
    /// Take ownership, clearing the slot; an absent value stays absent.
    TakeOptional,
    /// Duplicate the sequence's contents, leaving the slot untouched.
    SnapshotSequence,
}

/// Why a generation request failed.  All of these abort the whole
/// generation: there is no partial output.
#[derive(Debug, PartialEq, Eq)]
pub enum GenerateError {
    /// The record is not a plain named-field aggregate.
    UnsupportedRecordShape,
    /// A field's annotation is not the recognized `each = "<identifier>"`
    /// directive.
    MalformedAnnotation,
    /// A field carries the accumulate directive but its declared type is
    /// not a single-argument generic container.
    AnnotationTypeMismatch,
}

/// The generator's output: the builder type's storage definition, its
/// mutator methods and its extraction rules, one of each per record field
/// in declaration order, plus the two type names.  The factory operation
/// needs nothing beyond the slots: every slot starts at its empty default.
#[derive(Debug, PartialEq, Eq)]
pub struct BuilderDescription {
    pub record_name: String,
    pub builder_name: String,
    pub slots: Vec<StorageSlot>,
    pub methods: Vec<MethodDescription>,
    pub extracts: Vec<ExtractRule>,
}

/// The storage slot derived from one classification.
pub open spec fn slot_spec(name: String, c: Classification) -> StorageSlot {
    match c {
        Classification::Required(t) => (StorageSlot {
            name,
            storage: StorageKind::OptionalSlot(t),
        }),
        Classification::Optional(t) => (StorageSlot {
            name,
            storage: StorageKind::OptionalSlot(t),
        }),
        Classification::Accumulating(t, _) => (StorageSlot {
            name,
            storage: StorageKind::VectorSlot(t),
        }),
    }
}

/// The mutator method derived from one classification: a whole-value setter
/// named after the field, or, under an accumulate directive, an appender
/// named by the directive instead.
pub open spec fn method_spec(name: String, c: Classification) -> MethodDescription {
    match c {
        Classification::Required(_) => (MethodDescription {
            name,
            kind: MethodKind::Overwrite,
        }),
        Classification::Optional(_) => (MethodDescription {
            name,
            kind: MethodKind::Overwrite,
        }),
        Classification::Accumulating(_, m) => (MethodDescription {
            name: m,
            kind: MethodKind::Append,
        }),
    }
}

/// The extraction rule derived from one classification.
pub open spec fn extract_spec(c: Classification) -> ExtractRule {
    match c {
        Classification::Required(_) => ExtractRule::TakeRequired,
        Classification::Optional(_) => ExtractRule::TakeOptional,
        Classification::Accumulating(_, _) => ExtractRule::SnapshotSequence,
    }
}

/// Builder shape synthesizer: the storage slot for one field.
pub fn synthesize_slot(name: &String, c: &Classification) -> (s: StorageSlot)
    ensures
        s == slot_spec(*name, *c),
{
    match c {
        Classification::Required(t) => StorageSlot {
            name: name.clone(),
            storage: StorageKind::OptionalSlot(clone_shape(t)),
        },
        Classification::Optional(t) => StorageSlot {
            name: name.clone(),
            storage: StorageKind::OptionalSlot(clone_shape(t)),
        },
        Classification::Accumulating(t, _) => StorageSlot {
            name: name.clone(),
            storage: StorageKind::VectorSlot(clone_shape(t)),
        },
    }
}

/// Method synthesizer: the one mutator method for one field.
pub fn synthesize_method(name: &String, c: &Classification) -> (m: MethodDescription)
    ensures
        m == method_spec(*name, *c),
{
    match c {
        Classification::Required(_) => MethodDescription {
            name: name.clone(),
            kind: MethodKind::Overwrite,
        },
        Classification::Optional(_) => MethodDescription {
            name: name.clone(),
            kind: MethodKind::Overwrite,
        },
        Classification::Accumulating(_, m) => MethodDescription {
            name: m.clone(),
            kind: MethodKind::Append,
        },
    }
}

/// Finalizer synthesizer: the extraction rule for one field.
pub fn synthesize_extract(c: &Classification) -> (e: ExtractRule)
    ensures
        e == extract_spec(*c),
{
    match c {
        Classification::Required(_) => ExtractRule::TakeRequired,
        Classification::Optional(_) => ExtractRule::TakeOptional,
        Classification::Accumulating(_, _) => ExtractRule::SnapshotSequence,
    }
}

/// A field's classification outcome.
pub open spec fn field_classification(f: FieldDescription) -> Result<
    Classification,
    ClassifyError,
> {
    classify_spec(f.declared_type, f.annotation)
}

/// A field's classification, meaningful where classification succeeds.
pub open spec fn classification_of(f: FieldDescription) -> Classification {
    match field_classification(f) {
        Result::Ok(c) => c,
        Result::Err(_) => Classification::Required(TypeShape::Other),
    }
}

/// Whether every field of the sequence classifies.
pub open spec fn fields_all_classify(fields: Seq<FieldDescription>) -> bool {
    forall|i: int| 0 <= i < fields.len() ==> field_classification(#[trigger] fields[i]) is Ok
}

/// The first index at or after `i` whose field fails to classify, or the
/// length when every field from `i` on classifies.
pub open spec fn first_bad_from(fields: Seq<FieldDescription>, i: int) -> int
    recommends
        0 <= i <= fields.len(),
    decreases fields.len() - i,
{
    if i < 0 || i >= fields.len() {
        fields.len() as int
    } else if field_classification(fields[i]) is Err {
        i
    } else {
        first_bad_from(fields, i + 1)
    }
}

/// The first field that fails to classify, or the length when all do.
pub open spec fn first_bad_field(fields: Seq<FieldDescription>) -> int {
    first_bad_from(fields, 0)
}

/// The generation error that a classification error surfaces as.
pub open spec fn gen_error_of(e: ClassifyError) -> GenerateError {
    match e {
        ClassifyError::MalformedAnnotation => GenerateError::MalformedAnnotation,
        ClassifyError::AnnotationTypeMismatch => GenerateError::AnnotationTypeMismatch,
    }
}

/// The fields of a named-field record; empty for every other shape.
pub open spec fn named_fields(record: RecordDescription) -> Seq<FieldDescription> {
    match record.shape {
        RecordShape::Named(fields) => fields@,
        _ => Seq::empty(),
    }
}

/// Whether generation succeeds, and with which error it fails: a
/// non-named-field record is rejected outright, and otherwise the first
/// field that fails to classify decides the error.
pub open spec fn generate_outcome(record: RecordDescription) -> Result<(), GenerateError> {
    match record.shape {
        RecordShape::Named(fields) => {
            let k = first_bad_field(fields@);
            if k == fields@.len() {
                Ok(())
            } else {
                match field_classification(fields@[k]) {
                    Result::Err(e) => Err(gen_error_of(e)),
                    Result::Ok(_) => Ok(()),
                }
            }
        },
        _ => Err(GenerateError::UnsupportedRecordShape),
    }
}

/// The slot, the method and the rule at each position belong together: a
/// required or optional field has an optional slot and an overwriting
/// setter, an accumulating field has a sequence slot and an appender.
pub open spec fn kinds_agree(s: StorageSlot, m: MethodDescription, e: ExtractRule) -> bool {
    match e {
        ExtractRule::TakeRequired => s.storage is OptionalSlot && m.kind is Overwrite,
        ExtractRule::TakeOptional => s.storage is OptionalSlot && m.kind is Overwrite,
        ExtractRule::SnapshotSequence => s.storage is VectorSlot && m.kind is Append,
    }
}

/// Well-formedness of a declaration bundle: one method and one rule per
/// slot, each agreeing with its slot's storage.
pub open spec fn desc_wf(b: BuilderDescription) -> bool {
    &&& b.methods@.len() == b.slots@.len()
    &&& b.extracts@.len() == b.slots@.len()
    &&& forall|i: int|
        0 <= i < b.slots@.len() ==> kinds_agree(
            #[trigger] b.slots@[i],
            b.methods@[i],
            b.extracts@[i],
        )
}

/// The builder type's name: the record's name followed by `Builder`.
pub open spec fn builder_name_of(record_name: Seq<char>) -> Seq<char> {
    record_name + "Builder"@
}

/// Skipping fields that classify does not move the first failure.
proof fn lemma_first_bad_skip(fields: Seq<FieldDescription>, i: int)
    requires
        0 <= i <= fields.len(),
        forall|j: int| 0 <= j < i ==> field_classification(#[trigger] fields[j]) is Ok,
    ensures
        first_bad_field(fields) == first_bad_from(fields, i),
    decreases i,
{
    if i > 0 {
        lemma_first_bad_skip(fields, i - 1);
    }
}

/// Maps a classification error to the generation error it surfaces as.
fn map_classify_error(e: ClassifyError) -> (r: GenerateError)
    ensures
        r == gen_error_of(e),
{
    match e {
        ClassifyError::MalformedAnnotation => GenerateError::MalformedAnnotation,
        ClassifyError::AnnotationTypeMismatch => GenerateError::AnnotationTypeMismatch,
    }
}

/// Generates the full declaration bundle for one record description, or
/// fails outright: a record that is not a named-field aggregate, or whose
/// first failing field carries a bad annotation, yields the matching error
/// and no output at all.  On success the bundle holds, per field in
/// declaration order, the slot, the method and the extraction rule that the
/// field's classification prescribes.  Nothing guards against two fields
/// generating methods of one name (an accumulator directive shadowing a
/// setter, or two directives naming one method): the builder then resolves
/// a call in favour of the earliest field, and the behavioural laws assume
/// distinct names.
#[verifier::loop_isolation(false)]
pub fn generate(record: &RecordDescription) -> (r: Result<BuilderDescription, GenerateError>)
    ensures
        match r {
            Result::Ok(b) => {
                let fs = named_fields(*record);
                &&& generate_outcome(*record) == Ok::<(), GenerateError>(())
                &&& record.shape is Named
                &&& b.record_name@ == record.name@
                &&& b.builder_name@ == builder_name_of(record.name@)
                &&& b.slots@.len() == fs.len()
                &&& desc_wf(b)
                &&& forall|i: int|
                    0 <= i < fs.len() ==> {
                        &&& field_classification(#[trigger] fs[i]) is Ok
                        &&& b.slots@[i] == slot_spec(fs[i].name, classification_of(fs[i]))
                        &&& b.methods@[i] == method_spec(fs[i].name, classification_of(fs[i]))
                        &&& b.extracts@[i] == extract_spec(classification_of(fs[i]))
                    }
            },
            Result::Err(e) => generate_outcome(*record) == Err::<(), GenerateError>(e),
        },
{
    let fields = match &record.shape {
        RecordShape::Named(fields) => fields,
        RecordShape::Tuple => {
            return Err(GenerateError::UnsupportedRecordShape);
        },
        RecordShape::Unit => {
            return Err(GenerateError::UnsupportedRecordShape);
        },
        RecordShape::NotAggregate => {
            return Err(GenerateError::UnsupportedRecordShape);
        },
    };
    let ghost fs = fields@;
    let mut slots: Vec<StorageSlot> = Vec::new();
    let mut methods: Vec<MethodDescription> = Vec::new();
    let mut extracts: Vec<ExtractRule> = Vec::new();
    let n = fields.len();
    let mut i: usize = 0;
    while i < n
        invariant
            n == fs.len(),
            i <= n,
            fields@ == fs,
            slots@.len() == i as int,
            methods@.len() == i as int,
            extracts@.len() == i as int,
            forall|j: int|
                0 <= j < i ==> {
                    &&& field_classification(#[trigger] fs[j]) is Ok
                    &&& slots@[j] == slot_spec(fs[j].name, classification_of(fs[j]))
                    &&& methods@[j] == method_spec(fs[j].name, classification_of(fs[j]))
                    &&& extracts@[j] == extract_spec(classification_of(fs[j]))
                },
        decreases n - i,
    {
        let f = &fields[i];
        match classify(&f.declared_type, &f.annotation) {
            Result::Ok(c) => {
                let slot = synthesize_slot(&f.name, &c);
                let method = synthesize_method(&f.name, &c);
                let rule = synthesize_extract(&c);
                slots.push(slot);
                methods.push(method);
                extracts.push(rule);
            },
            Result::Err(ce) => {
                proof {
                    lemma_first_bad_skip(fs, i as int);
                }
                return Err(map_classify_error(ce));
            },
        }
        i += 1;
    }
    proof {
        lemma_first_bad_skip(fs, n as int);
        assert forall|j: int| 0 <= j < slots@.len() implies kinds_agree(
            slots@[j],
            methods@[j],
            extracts@[j],
        ) by {
            assert(field_classification(fs[j]) is Ok);
        }
    }
    let mut builder_name = record.name.clone();
    builder_name.append("Builder");
    Ok(
        BuilderDescription {
            record_name: record.name.clone(),
            builder_name,
            slots,
            methods,
            extracts,
        },
    )
}

} // verus!
