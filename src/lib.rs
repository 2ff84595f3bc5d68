//! A two-stage toolchain for an eight-instruction tape language: a compiler
//! that turns source text into a fixed-capacity bytecode array with resolved
//! jump targets, and a machine that runs that bytecode one step at a time,
//! reporting each output and each request for input to its caller.
use vstd::prelude::*;

pub mod program;
pub mod compiler;
pub mod machine;

verus! {

} // verus!
