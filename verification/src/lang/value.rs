//! Handles that name the results of instructions.

use vstd::prelude::*;
use crate::lang::lang_type::Type;

verus! {

/// A compile-time name for the result of an instruction: an ordinal that is
/// unique within the function that minted it, and the type of the result.
/// It holds no storage; the code generator maps it to a register.
#[derive(Clone, Copy, PartialEq, Eq, Structural, Debug)]
pub struct Value {
    pub id: usize,
    pub value_type: Type,
}

impl Value {
    /// The value with the given id and type.
    pub fn new(id: usize, lang_type: Type) -> (v: Self)
        ensures
            v == (Value { id, value_type: lang_type }),
    {
        Value { id, value_type: lang_type }
    }

    /// The type of the value.
    pub fn get_type(&self) -> (t: Type)
        ensures
            t == self.value_type,
    {
        self.value_type
    }

    /// The ordinal of the value within its function.
    pub fn get_id(&self) -> (id: usize)
        ensures
            id == self.id,
    {
        self.id
    }
}

} // verus!
