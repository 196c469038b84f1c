//! Job status codes (`status.code`). A job is terminal only when `completed`,
//! `failed` or `canceled`; every other code, including an unknown one, is not.

use vstd::prelude::*;
use crate::text::str_eq;

verus! {

pub const CREATED: &'static str = "created";
pub const INCOMPLETE: &'static str = "incomplete";
pub const DOWNLOADING: &'static str = "downloading";
pub const QUEUED: &'static str = "queued";
pub const PROCESSING: &'static str = "processing";
pub const COMPLETED: &'static str = "completed";
pub const FAILED: &'static str = "failed";
pub const CANCELED: &'static str = "canceled";

/// A terminal status: `completed`, `failed` or `canceled`.
pub open spec fn spec_terminal(code: Seq<char>) -> bool {
    code == "completed"@ || code == "failed"@ || code == "canceled"@
}

/// An unsuccessful terminal status: `failed` or `canceled`.
pub open spec fn spec_unsuccessful(code: Seq<char>) -> bool {
    code == "failed"@ || code == "canceled"@
}

/// Whether `code` is a terminal status. Unknown codes are non-terminal.
pub fn is_terminal(code: &str) -> (r: bool)
    ensures
        r == spec_terminal(code@),
{
    str_eq(code, COMPLETED) || str_eq(code, FAILED) || str_eq(code, CANCELED)
}

/// Whether `code` is an unsuccessful terminal status (`failed`/`canceled`).
pub fn is_unsuccessful(code: &str) -> (r: bool)
    ensures
        r == spec_unsuccessful(code@),
{
    str_eq(code, FAILED) || str_eq(code, CANCELED)
}

/// Every unsuccessful status is terminal, and a terminal status is either
/// `completed` or unsuccessful.
pub proof fn unsuccessful_is_terminal(code: Seq<char>)
    ensures
        spec_unsuccessful(code) ==> spec_terminal(code),
        spec_terminal(code) <==> (code == "completed"@ || spec_unsuccessful(code)),
{
}

} // verus!
