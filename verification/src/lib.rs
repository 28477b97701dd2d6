//! A minimal interactive shell core: an alias table scraped from shell
//! configuration lines, resolution of alias invocations to the one supported
//! builtin (`cd`), naive whitespace tokenization of command lines, and
//! rendering of the working-directory prompt with the home directory
//! abbreviated to `~`.
//!
//! The surrounding binary owns all I/O: line editing, spawning child
//! processes, and changing the working directory. This crate holds the
//! decisions: given a line of input and the alias table, what should happen.

use vstd::prelude::*;

pub mod alias;
pub mod builtin;
pub mod prompt;
pub mod repl;
pub mod text;

verus! {

} // verus!
