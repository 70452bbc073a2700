//! A minimal stack-based bytecode virtual machine.
//!
//! A [`chunk::Chunk`] holds encoded instructions, one source-line marker per
//! byte, and a pool of constants. A [`vm::VirtualMachine`] executes a chunk
//! against an operand stack, instruction after instruction, until one of
//! them returns a value or faults. The disassembler renders a chunk as
//! text, one line for each instruction.
//!
//! Numbers are IEEE-754 double precision values, held by their bit
//! patterns. The machine decides what is computed and in which order; the
//! four arithmetic operations and the text of a number are functions on bit
//! patterns that the caller hands in. What the machine and the disassembler
//! do is stated for every such function, over the relation between what it
//! is given and what it may return.

pub mod chunk;
pub mod disassembler;
pub mod machine;
pub mod opcodes;
pub mod text;
pub mod value;
pub mod vm;
