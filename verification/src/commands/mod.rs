//! The tool's commands: `list` and `is`, and how an outcome of theirs is
//! reported when the tool exits.
use vstd::prelude::*;
use crate::strings::concat2;

pub mod is;
pub mod list;

verus! {

/// The exit status for an outcome: 0 when it held, 1 when it did not, 2 on an
/// error.
pub open spec fn status_of(outcome: Result<bool, String>) -> i32 {
    match outcome {
        Ok(true) => 0,
        Ok(false) => 1,
        Err(_) => 2,
    }
}

/// The status the tool exits with after a command: 0 when it succeeded (every
/// condition held), 1 when a condition did not hold, 2 on an error.
pub fn exit_status(outcome: &Result<bool, String>) -> (c: i32)
    ensures
        c == status_of(*outcome),
{
    match outcome {
        Ok(true) => 0,
        Ok(false) => 1,
        Err(_) => 2,
    }
}

/// The line written to standard error for the error `e`.
pub fn error_line(e: &str) -> (r: String)
    ensures
        r@ == "error: "@ + e@,
{
    concat2("error: ", e)
}

} // verus!
