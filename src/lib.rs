//! Lowering engines for a small statically typed language.
//!
//! Two independent consumers of the same typed tree live here: a register
//! lowering engine that emits an SSA-style IR module, and a stack lowering
//! engine that emits a tree of bytecode instructions together with a binary
//! codec for it.
pub mod ast;
pub mod codegen;
pub mod error;
pub mod instr;
pub mod ir;
pub mod sbc;
pub mod tag;
