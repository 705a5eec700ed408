//! The closed set of primitive machine types.

use vstd::prelude::*;

verus! {

/// The kind of a primitive machine type.
#[derive(Clone, Copy, PartialEq, Eq, Structural, Debug)]
pub enum LangDataType {
    DataTypeVoid,
    DataTypeI64,
    DataTypeI32,
    DataTypeI16,
    DataTypeI8,
    DataTypeF64,
    DataTypeF32,
    DataTypePtr,
}

/// A primitive machine type.  Two types are equal exactly when their kinds are.
#[derive(Clone, Copy, PartialEq, Eq, Structural, Debug)]
pub struct Type {
    pub data_type: LangDataType,
}

impl Type {
    /// Whether a value of this type lives in a vector register.
    pub open spec fn spec_is_float(&self) -> bool {
        self.data_type == LangDataType::DataTypeF64 || self.data_type == LangDataType::DataTypeF32
    }

    /// Whether this is one of the signed integer types.
    pub open spec fn spec_is_int(&self) -> bool {
        ||| self.data_type == LangDataType::DataTypeI8
        ||| self.data_type == LangDataType::DataTypeI16
        ||| self.data_type == LangDataType::DataTypeI32
        ||| self.data_type == LangDataType::DataTypeI64
    }

    /// Whether this is the opaque pointer type.
    pub open spec fn spec_is_ptr(&self) -> bool {
        self.data_type == LangDataType::DataTypePtr
    }

    /// The type of no value.
    pub fn void() -> (t: Self)
        ensures
            t.data_type == LangDataType::DataTypeVoid,
    {
        Self { data_type: LangDataType::DataTypeVoid }
    }

    /// The signed 8-bit integer type.
    pub fn i8() -> (t: Self)
        ensures
            t.data_type == LangDataType::DataTypeI8,
    {
        Self { data_type: LangDataType::DataTypeI8 }
    }

    /// The signed 16-bit integer type.
    pub fn i16() -> (t: Self)
        ensures
            t.data_type == LangDataType::DataTypeI16,
    {
        Self { data_type: LangDataType::DataTypeI16 }
    }

    /// The signed 32-bit integer type.
    pub fn i32() -> (t: Self)
        ensures
            t.data_type == LangDataType::DataTypeI32,
    {
        Self { data_type: LangDataType::DataTypeI32 }
    }

    /// The signed 64-bit integer type.
    pub fn i64() -> (t: Self)
        ensures
            t.data_type == LangDataType::DataTypeI64,
    {
        Self { data_type: LangDataType::DataTypeI64 }
    }

    /// The 32-bit floating-point type.
    pub fn float32() -> (t: Self)
        ensures
            t.data_type == LangDataType::DataTypeF32,
    {
        Self { data_type: LangDataType::DataTypeF32 }
    }

    /// The 64-bit floating-point type.
    pub fn float64() -> (t: Self)
        ensures
            t.data_type == LangDataType::DataTypeF64,
    {
        Self { data_type: LangDataType::DataTypeF64 }
    }

    /// The opaque pointer type.
    pub fn ptr() -> (t: Self)
        ensures
            t.data_type == LangDataType::DataTypePtr,
    {
        Self { data_type: LangDataType::DataTypePtr }
    }

    /// Whether a value of this type lives in a vector register.
    #[verifier::when_used_as_spec(spec_is_float)]
    pub fn is_float(&self) -> (b: bool)
        ensures
            b == self.spec_is_float(),
    {
        self.data_type == LangDataType::DataTypeF64 || self.data_type == LangDataType::DataTypeF32
    }

    /// Whether this is one of the signed integer types.
    #[verifier::when_used_as_spec(spec_is_int)]
    pub fn is_int(&self) -> (b: bool)
        ensures
            b == self.spec_is_int(),
    {
        !(self.is_float() || self.is_ptr() || self.data_type == LangDataType::DataTypeVoid)
    }

    /// Whether this is the opaque pointer type.
    #[verifier::when_used_as_spec(spec_is_ptr)]
    pub fn is_ptr(&self) -> (b: bool)
        ensures
            b == self.spec_is_ptr(),
    {
        self.data_type == LangDataType::DataTypePtr
    }
}

/// Every type falls in exactly one of the four classes: void, integer,
/// floating point, pointer.
pub proof fn lemma_type_classes(t: Type)
    ensures
        t.spec_is_int() || t.spec_is_float() || t.spec_is_ptr() || t.data_type
            == LangDataType::DataTypeVoid,
        !(t.spec_is_int() && t.spec_is_float()),
        !(t.spec_is_int() && t.spec_is_ptr()),
        !(t.spec_is_float() && t.spec_is_ptr()),
        t.data_type == LangDataType::DataTypeVoid ==> !t.spec_is_int() && !t.spec_is_float()
            && !t.spec_is_ptr(),
{
}

} // verus!
