//! Structural descriptions of record types: the input side of the generator.
//!
//! A record description arrives here already parsed by a front end; the
//! generator never reads source text.  Types are modelled as a closed tagged
//! variant (a plain named type, a single-argument generic, or anything else),
//! and a field's metadata annotation as a key/value pair whose value is either
//! a string literal or some other expression.

use vstd::prelude::*;

verus! {

/// The shape of a field's declared type.
///
/// A path type is identified by the final segment of its path alone, so a
/// fully qualified spelling and an abbreviated one land on the same shape.
#[derive(Debug, PartialEq, Eq)]
pub enum TypeShape {
    /// A named type with no generic arguments; carries the final path segment.
    Plain(String),
    /// A named generic type applied to exactly one type argument.
    GenericOne(String, Box<TypeShape>),
    /// Any other shape (references, tuples, multi-argument generics, ...).
    Other,
}

/// The value side of a metadata annotation.
#[derive(Debug, PartialEq, Eq)]
pub enum MetaValue {
    /// A string literal.
    StrLit(String),
    /// Any expression that is not a string literal.
    OtherExpr,
}

/// One metadata annotation on a field: a path-like key (only its final
/// segment is kept) and a value.
#[derive(Debug, PartialEq, Eq)]
pub struct MetaPair {
    pub key: String,
    pub value: MetaValue,
}

/// One field of a record: its name, the shape of its declared type, and at
/// most one metadata annotation.
#[derive(Debug, PartialEq, Eq)]
pub struct FieldDescription {
    pub name: String,
    pub declared_type: TypeShape,
    pub annotation: Option<MetaPair>,
}

/// The shape of the record itself.  Only a named-field aggregate can be
/// given a builder; the other shapes are kept so that the generator can
/// reject them explicitly.
#[derive(Debug, PartialEq, Eq)]
pub enum RecordShape {
    /// A named-field aggregate; the field order is significant.
    Named(Vec<FieldDescription>),
    /// A tuple-style aggregate.
    Tuple,
    /// A unit-style aggregate.
    Unit,
    /// Not an aggregate at all.
    NotAggregate,
}

/// The generator's input: a record type's name and its shape.
#[derive(Debug, PartialEq, Eq)]
pub struct RecordDescription {
    pub name: String,
    pub shape: RecordShape,
}

/// Field names are unique within a record.
pub open spec fn field_names_distinct(fields: Seq<FieldDescription>) -> bool {
    forall|i: int, j: int|
        0 <= i < j < fields.len() ==> fields[i].name@ != fields[j].name@
}

/// Duplicates a type shape; the copy equals the original exactly.
pub fn clone_shape(t: &TypeShape) -> (r: TypeShape)
    ensures
        r == *t,
    decreases *t,
{
    match t {
        TypeShape::Plain(n) => TypeShape::Plain(n.clone()),
        TypeShape::GenericOne(n, a) => TypeShape::GenericOne(n.clone(), Box::new(clone_shape(&**a))),
        TypeShape::Other => TypeShape::Other,
    }
}

} // verus!
