use vstd::prelude::*;

verus! {

/// The payload of a non-null [`super::Value`].
#[derive(Debug, Clone, PartialEq, PartialOrd)]
pub enum Value {
    /// A text.
    String(String),
    /// A byte string.
    Binary(Vec<u8>),
    /// A signed integer.
    Integer(i64),
    /// A double-precision number, held as its IEEE-754 bit pattern.
    Float(u64),
    /// A truth value.
    Bool(bool),
}

} // verus!
