//! The x86-64 back end: registers and their allocation, the calling
//! convention, the instruction encoder, and the generator that drives them.

pub mod x86_64_allocator;
pub mod x86_64_encoder;
pub mod x86_64_caller;
pub mod gen;
pub mod gen_proof;
pub mod code_shapes;
pub mod machine;
pub mod constants;
