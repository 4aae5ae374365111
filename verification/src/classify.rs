//! Field classification and annotation interpretation.
//!
//! Classification is a total, deterministic function of a field's declared
//! type shape and its annotation: every field is `Required`, `Optional` or
//! `Accumulating`, or classification fails.  A field can carry an annotation
//! only by being classified `Accumulating`, and every annotation must match
//! the single recognized directive form `each = "<identifier>"`.

use vstd::prelude::*;

use crate::model::{clone_shape, MetaPair, MetaValue, TypeShape};

verus! {

/// The one recognized annotation directive: generate a single-element
/// accumulator method of the given name instead of a whole-value setter.
#[derive(Debug, PartialEq, Eq)]
pub enum Directive {
    AccumulateAs(String),
}

/// Failure of the annotation interpreter.
#[derive(Debug, PartialEq, Eq)]
pub enum InterpretError {
    /// The annotation is not of the form `each = "<identifier>"`.
    MalformedAnnotation,
}

/// Failure of the field classifier.
#[derive(Debug, PartialEq, Eq)]
pub enum ClassifyError {
    /// The field's annotation is not the recognized directive.
    MalformedAnnotation,
    /// The field carries the accumulate directive but its declared type is
    /// not a single-argument generic container.
    AnnotationTypeMismatch,
}

/// How one field is represented and mutated in the builder.
#[derive(Debug, PartialEq, Eq)]
pub enum Classification {
    /// A plain field, carried verbatim: it must be set before finalizing.
    Required(TypeShape),
    /// An optional-shaped field; carries the inner type.
    Optional(TypeShape),
    /// An annotated field; carries the element type and the name of the
    /// accumulator method.
    Accumulating(TypeShape, String),
}

/// The key of the one recognized directive.
pub open spec fn directive_key() -> Seq<char> {
    "each"@
}

/// The final path segment that marks an optional-shaped type.
pub open spec fn optional_marker() -> Seq<char> {
    "Option"@
}

/// What `interpret` returns: the accumulator method name when the annotation
/// is `each = "<identifier>"`, and an error for every other shape.
pub open spec fn interpret_spec(m: MetaPair) -> Result<Directive, InterpretError> {
    if m.key@ == directive_key() {
        match m.value {
            MetaValue::StrLit(s) => Ok(Directive::AccumulateAs(s)),
            MetaValue::OtherExpr => Err(InterpretError::MalformedAnnotation),
        }
    } else {
        Err(InterpretError::MalformedAnnotation)
    }
}

/// Interprets a field's metadata annotation.  Exactly one directive form is
/// recognized; everything else is an unrecoverable error.
pub fn interpret(m: &MetaPair) -> (r: Result<Directive, InterpretError>)
    ensures
        r == interpret_spec(*m),
{
    let each = String::from_str("each");
    if m.key == each {
        match &m.value {
            MetaValue::StrLit(s) => Ok(Directive::AccumulateAs(s.clone())),
            MetaValue::OtherExpr => Err(InterpretError::MalformedAnnotation),
        }
    } else {
        Err(InterpretError::MalformedAnnotation)
    }
}

/// What `classify` returns, for every type shape and annotation.
pub open spec fn classify_spec(ty: TypeShape, ann: Option<MetaPair>) -> Result<
    Classification,
    ClassifyError,
> {
    match ann {
        Option::None => match ty {
            TypeShape::GenericOne(n, a) => if n@ == optional_marker() {
                Ok(Classification::Optional(*a))
            } else {
                Ok(Classification::Required(ty))
            },
            _ => Ok(Classification::Required(ty)),
        },
        Option::Some(m) => match interpret_spec(m) {
            Result::Ok(d) => match (d, ty) {
                (
                    Directive::AccumulateAs(name),
                    TypeShape::GenericOne(_, a),
                ) => Ok(Classification::Accumulating(*a, name)),
                _ => Err(ClassifyError::AnnotationTypeMismatch),
            },
            Result::Err(_) => Err(ClassifyError::MalformedAnnotation),
        },
    }
}

/// Classifies one field from its declared type shape and its annotation.
///
/// Without an annotation, an outer `Optional` shape (matched by the final
/// path segment of its name) yields `Optional` with the inner type; any
/// other shape is `Required` verbatim.  With an annotation, the directive
/// must interpret and the declared type must be a single-argument generic,
/// whose argument becomes the element type.  Pure: no side effects.
pub fn classify(ty: &TypeShape, ann: &Option<MetaPair>) -> (r: Result<
    Classification,
    ClassifyError,
>)
    ensures
        r == classify_spec(*ty, *ann),
{
    match ann {
        Option::None => match ty {
            TypeShape::GenericOne(n, a) => if is_option_name(n) {
                Ok(Classification::Optional(clone_shape(&**a)))
            } else {
                Ok(Classification::Required(clone_shape(ty)))
            },
            _ => Ok(Classification::Required(clone_shape(ty))),
        },
        Option::Some(m) => match interpret(m) {
            Result::Ok(Directive::AccumulateAs(name)) => match ty {
                TypeShape::GenericOne(_, a) => Ok(
                    Classification::Accumulating(clone_shape(&**a), name),
                ),
                _ => Err(ClassifyError::AnnotationTypeMismatch),
            },
            Result::Err(_) => Err(ClassifyError::MalformedAnnotation),
        },
    }
}

/// Whether a type name is the optional marker.
fn is_option_name(n: &String) -> (r: bool)
    ensures
        r == (n@ == optional_marker()),
{
    let marker = String::from_str("Option");
    *n == marker
}

} // verus!
