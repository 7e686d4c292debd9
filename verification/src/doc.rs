//! Plain tree representation of a configuration document.
//!
//! The schema codec works on this type alone, so that the strict
//! validation rules are stated and checked here; turning concrete document
//! text into this tree and back is left to the embedding.

use vstd::prelude::*;

verus! {

/// One node of a configuration document.
#[derive(Debug)]
pub enum DocValue {
    /// An unsigned integer value.
    Number(u64),
    /// A text value.
    Text(String),
    /// An ordered list of values.
    Array(Vec<DocValue>),
    /// Field names with their values, in document order.
    Object(Vec<DocField>),
    /// Any other node, such as a null, boolean or fractional value; the
    /// schema accepts none of these anywhere.
    Other,
}

/// One named field of a document object.
#[derive(Debug)]
pub struct DocField {
    /// The field name.
    pub name: String,
    /// The field value.
    pub value: DocValue,
}

} // verus!
