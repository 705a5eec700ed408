//! A minimal just-in-time compiler: a typed intermediate representation that
//! is built through [`lang::builder::Builder`], lowered to x86-64 machine code
//! by [`gen::x86_64::gen::X86_64Gen`], and kept per function in a
//! [`compiler::Compiler`] registry.
//!
//! Every function in this crate is verified against its contract.  The
//! contracts of the generator speak of the bytes that are emitted.  What a
//! processor does with the bytes of the emitters for general-purpose
//! registers, and what the simplest functions return, is proved on a model
//! of the processor in [`gen::x86_64::machine`].  Copying the code into
//! executable memory and calling it is left to the program that uses the
//! library.

pub mod misc;
pub mod lang;
pub mod gen;
pub mod compiler;
