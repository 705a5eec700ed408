//! Small utilities shared by the code generator.

pub mod byte_writer;
