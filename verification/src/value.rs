//! The values a scratchpad cell can hold, and their kinds.
//!
//! A stored value is one of a fixed set of kinds: scalar kinds (integer,
//! floating-point, boolean, character), text, and the compound kinds (a
//! fixed-shape tuple, a sequence of integers, an ordered association list,
//! and a small record). A floating-point value is carried as its raw bit
//! pattern: the scratchpad only stores such values and compares their kinds,
//! it never performs arithmetic on them, so the bits are all it needs.

use vstd::prelude::*;

verus! {

/// A small aggregate value: one text field and one integer field.
#[derive(Debug, PartialEq, Eq)]
pub struct Record {
    pub text: String,
    pub number: i64,
}

/// A value that a cell can hold.
#[derive(Debug, PartialEq, Eq)]
pub enum Value {
    /// A signed integer.
    Integer(i64),
    /// A floating-point value, carried as its raw bit pattern.
    Float(u64),
    /// A truth value.
    Boolean(bool),
    /// A single character.
    Character(char),
    /// Owned text.
    Text(String),
    /// A fixed-shape tuple: an integer, a floating-point bit pattern, and a
    /// character.
    Tuple(i64, u64, char),
    /// A sequence of integers.
    Sequence(Vec<i64>),
    /// An ordered association list from text keys to floating-point bit
    /// patterns.
    Mapping(Vec<(String, u64)>),
    /// A record value.
    Record(Record),
}

/// The kind of a value: what may change on mutation is a value's contents,
/// never its kind.
#[derive(Debug, Clone, Copy, PartialEq, Eq, Structural)]
pub enum ValueKind {
    Integer,
    Float,
    Boolean,
    Character,
    Text,
    Tuple,
    Sequence,
    Mapping,
    Record,
}

impl Value {
    /// The kind of this value.
    pub open spec fn kind(self) -> ValueKind {
        match self {
            Value::Integer(_) => ValueKind::Integer,
            Value::Float(_) => ValueKind::Float,
            Value::Boolean(_) => ValueKind::Boolean,
            Value::Character(_) => ValueKind::Character,
            Value::Text(_) => ValueKind::Text,
            Value::Tuple(_, _, _) => ValueKind::Tuple,
            Value::Sequence(_) => ValueKind::Sequence,
            Value::Mapping(_) => ValueKind::Mapping,
            Value::Record(_) => ValueKind::Record,
        }
    }

    /// Report the kind of this value.
    pub fn kind_of(&self) -> (k: ValueKind)
        ensures
            k == self.kind(),
    {
        match self {
            Value::Integer(_) => ValueKind::Integer,
            Value::Float(_) => ValueKind::Float,
            Value::Boolean(_) => ValueKind::Boolean,
            Value::Character(_) => ValueKind::Character,
            Value::Text(_) => ValueKind::Text,
            Value::Tuple(_, _, _) => ValueKind::Tuple,
            Value::Sequence(_) => ValueKind::Sequence,
            Value::Mapping(_) => ValueKind::Mapping,
            Value::Record(_) => ValueKind::Record,
        }
    }
}

} // verus!
