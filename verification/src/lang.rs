//! The typed intermediate representation: types, values, instructions,
//! blocks, the builder that assembles them, and functions.

pub mod block;
pub mod builder;
pub mod function;
pub mod instr;
pub mod lang_type;
pub mod validate;
pub mod value;
