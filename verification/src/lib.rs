//! A two-stage translation pipeline for a simple 16-bit stack machine:
//! a VM-command-to-assembly code generator and a two-pass assembler that
//! resolves symbols and emits fixed-width binary instruction words.
#![allow(unused_imports)]
#![verifier::loop_isolation(false)]

pub mod assembler;
pub mod codegen;
pub mod machine;
pub mod numerals;
pub mod symbols;
pub mod tables;
pub mod text;
pub mod vm;
