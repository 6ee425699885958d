//! A minimal stack-based bytecode virtual machine.
//!
//! The crate defines an instruction encoding (`isa`), an assembler that
//! lowers symbolic instructions into that encoding (`assembler`), a
//! mathematical small-step semantics for the machine (`semantics`), and an
//! interpreter that executes a program image against a flat memory and an
//! operand stack (`machine`), verified against the semantics.

pub mod assembler;
pub mod isa;
pub mod machine;
pub mod semantics;
