//! A small virtual machine for an eight-command tape language: a pointer moves over a
//! tape of 30,000 byte cells that wraps round, cells are raised and lowered, read and
//! written, and brackets loop while the current cell is not zero.
//!
//! A program goes through four stages. `parser` reads source text into instructions.
//! `fusion` says what the optimizer makes of them, `brackets` what linking the loop
//! brackets means, and `semantics` what a program then does, one instruction at a
//! time and over a whole run. `executor` holds the machine that carries all of this
//! out; `equivalence` proves that the optimizer does not change what a program does.
//!
//! The machine does no input or output of its own. A caller either drives it step by
//! step, doing what each step asks for, or runs it against a buffer of input.

pub mod brackets;
pub mod equivalence;
pub mod error;
pub mod executor;
pub mod fusion;
pub mod instruction;
pub mod parser;
pub mod semantics;
