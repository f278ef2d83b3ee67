//! Plain field values and document identifiers.
//!
//! A record's fields are dynamically typed: each one holds a text, an
//! integer, a flag, or nothing at all (an optional field that was never
//! set). The spec-level model of a value replaces the executable `String`
//! by its character sequence, so contracts can speak of field contents
//! mathematically.

use vstd::prelude::*;

verus! {

/// Opaque, globally unique identity of a stored document.
///
/// The raw value is wide enough to carry a 12-byte store object id.
#[derive(Clone, Copy, PartialEq, Eq, Structural, Debug, Hash)]
pub struct DocumentId {
    pub raw: u128,
}

/// A single field value of a record or of a stored document.
#[derive(Clone, Debug)]
pub enum FieldValue {
    /// An optional field that carries no value.
    Absent,
    /// A textual value.
    Text(String),
    /// A signed integer value.
    Int(i64),
    /// A boolean value.
    Flag(bool),
}

/// Mathematical model of a [`FieldValue`].
pub ghost enum ValueModel {
    Absent,
    Text(Seq<char>),
    Int(int),
    Flag(bool),
}

impl FieldValue {
    /// The mathematical value this executable value stands for.
    pub open spec fn model(self) -> ValueModel {
        match self {
            FieldValue::Absent => ValueModel::Absent,
            FieldValue::Text(s) => ValueModel::Text(s@),
            FieldValue::Int(i) => ValueModel::Int(i as int),
            FieldValue::Flag(b) => ValueModel::Flag(b),
        }
    }

    /// Copies the value; the copy has the same model.
    pub fn duplicate(&self) -> (r: FieldValue)
        ensures
            r.model() == self.model(),
    {
        match self {
            FieldValue::Absent => FieldValue::Absent,
            FieldValue::Text(s) => FieldValue::Text(s.clone()),
            FieldValue::Int(i) => FieldValue::Int(*i),
            FieldValue::Flag(b) => FieldValue::Flag(*b),
        }
    }

    /// True if this value is absent.
    pub fn is_absent(&self) -> (r: bool)
        ensures
            r == (self.model() is Absent),
    {
        match self {
            FieldValue::Absent => true,
            _ => false,
        }
    }
}

/// Decides equality of two field values at the level of their models.
pub fn value_eq(a: &FieldValue, b: &FieldValue) -> (r: bool)
    ensures
        r == (a.model() == b.model()),
{
    match a {
        FieldValue::Absent => match b {
            FieldValue::Absent => true,
            _ => false,
        },
        FieldValue::Text(x) => match b {
            FieldValue::Text(y) => *x == *y,
            _ => false,
        },
        FieldValue::Int(x) => match b {
            FieldValue::Int(y) => *x == *y,
            _ => false,
        },
        FieldValue::Flag(x) => match b {
            FieldValue::Flag(y) => *x == *y,
            _ => false,
        },
    }
}

} // verus!
