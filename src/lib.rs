//! A small virtual machine for a Forth-family language: packed four-opcode
//! bundles over a flat image of 32-bit cells, with a data stack and a return
//! stack.
pub mod semantics;
pub mod vm;
pub mod image;
pub mod dictionary;
pub mod laws;
