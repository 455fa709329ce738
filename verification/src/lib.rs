//! A verified toolchain for a small declaration-based language: source text
//! written as stylesheet-like `name: arg ...;` lines is lexed into tokens,
//! compiled into a fixed instruction set, and executed by a virtual machine
//! with a growable variable store, a one-level loop, label-indexed jumps and
//! a print buffer.

pub mod number;
pub mod text;
pub mod token;
pub mod var;
pub mod instr;
pub mod compile;
pub mod labels;
pub mod vm;
pub mod lemmas;
