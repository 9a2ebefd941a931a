//! A small stack-based bytecode virtual machine.
//!
//! Two value profiles are provided, each a complete deployment of its own:
//! - `opcode`, `chunk` and `byte_vm`: a byte-encoded instruction stream whose
//!   values are unsigned 8-bit integers with wrapping arithmetic, with a
//!   disassembler that renders each instruction as one diagnostic line;
//! - `machine`: instructions that carry their constant inline and values that
//!   are tagged (boolean, 8-bit number or nil), with a batch run loop and a
//!   single-step entry point for interactive drivers.
//!
//! `scanner` and `compiler` are the front end that turns source text into a
//! `machine::Chunk`.
pub mod arith;
pub mod byte_vm;
pub mod chunk;
pub mod compiler;
pub mod error;
pub mod machine;
pub mod opcode;
pub mod scanner;
pub mod text;
