//! A program invocation: what the library decides to run, handed to the
//! application, which starts the process.
use vstd::prelude::*;

verus! {

/// A program and its arguments, in order.
#[derive(Clone, Debug)]
pub struct ProcessCommand {
    pub program: String,
    pub args: Vec<String>,
}

} // verus!
