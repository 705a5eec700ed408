//! Code generators, one module per target architecture.

pub mod x86_64;
