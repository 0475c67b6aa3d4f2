//! Translation of programs for a stack machine into assembly text for a
//! 16-bit target that has a data register, an address register, and a stack
//! and four segment pointers in memory.
//!
//! A run goes through three parts. The classifier in [`parser`] reads the
//! lines of a source unit and gives one [`command::Command`] at a time. The
//! generator in [`code_writer`] lowers each command to a list of assembly
//! lines ([`lowering`], [`fragments`], [`assembly`]) and collects their text.
//! The driver in [`translator`] feeds the commands of every source unit to
//! the generator and numbers them, so that each comparison and each call
//! site gets labels of its own.
//!
//! [`machine`] is a model of the target, and [`correctness`] proves of the
//! lines that commands are lowered to what they do on it: a push and a pop
//! move one word between a segment and the stack, an operation replaces its
//! operands by the result, a call and a return save and restore the caller's
//! frame. [`recursion`] proves of a function that calls itself that every
//! call returns to its caller, however deep the recursion goes.

pub mod arithmetic;
pub mod assembly;
pub mod code_writer;
pub mod command;
pub mod correctness;
pub mod error;
pub mod fragments;
pub mod indent;
pub mod lowering;
pub mod machine;
pub mod parser;
pub mod recursion;
pub mod text;
pub mod translator;
