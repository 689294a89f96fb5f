//! A small bytecode virtual machine: a big-endian word codec, a binary-image
//! loader, a fixed 16-opcode instruction set, and a register/stack execution
//! engine, each with a verified contract.

pub mod bits;
pub mod isa;
pub mod loader;
pub mod machine;
pub mod engine;
