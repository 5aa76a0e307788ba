//! A one-pass translator from a stack-machine instruction set to the assembly
//! language of a 16-bit accumulator machine.
//!
//! Every instruction of the input becomes one block of assembly lines. The
//! blocks are described as sequences of micro-operations, which a single
//! renderer turns into text.

pub mod assembly;
pub mod codegen;
pub mod instruction;
pub mod labels;
pub mod machine;
pub mod numeral;
pub mod text;
pub mod translate;
