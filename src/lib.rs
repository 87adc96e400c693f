//! An interpreting virtual machine for a subset of 32-bit x86 assembly in
//! Intel syntax: a scanner, a preprocessor that resolves labels into relative
//! displacements, an operand decoder and an execution engine, each proved
//! against the semantics stated in its module.

pub mod text;
pub mod token;
pub mod keywords;
pub mod scanner;
pub mod machine;
pub mod laws;
pub mod error;
pub mod decode;
pub mod semantics;
pub mod vm;
pub mod preprocess;
