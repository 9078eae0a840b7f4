//! A typed value model, its canonical binary encoding and the instruction set of a
//! transaction-scripting virtual machine.

pub mod arith;
pub mod authorization;
pub mod bigint;
pub mod codec;
pub mod decoding;
pub mod encoding;
pub mod endian;
pub mod engine;
pub mod fixed;
pub mod laws;
pub mod model;
pub mod opcodes;
pub mod reader;
pub mod sanity;
pub mod term;
pub mod term_reader;
pub mod text;
