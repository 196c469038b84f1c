//! Decisions around a download: the output a result selects, the password a
//! download sends, and the cap on the bytes it accepts.

use vstd::prelude::*;

use crate::errors::{Api2ConvertError, Result};
use crate::models::OutputFile;
use crate::text::{decimal, decimal_string, push_all, push_str, string_from_chars};

verus! {

/// The error text for a missing output.
pub open spec fn missing_output_text(index: nat, produced: nat) -> Seq<char> {
    "no output file at index "@ + decimal(index) + " (job produced "@ + decimal(produced) + ")"@
}

/// The selected output: the one at `index`, or a configuration error saying
/// how many outputs the job produced.
pub fn select_output<'a>(outputs: &'a Vec<OutputFile>, index: usize) -> (r: Result<&'a OutputFile>)
    ensures
        index < outputs@.len() ==> (r matches Ok(o) && *o == outputs@[index as int]),
        index >= outputs@.len() ==> (r matches Err(Api2ConvertError::Config(m)) && m@ == missing_output_text(
            index as nat,
            outputs@.len(),
        )),
{
    if index < outputs.len() {
        Ok(&outputs[index])
    } else {
        let mut m: Vec<char> = Vec::new();
        push_str(&mut m, "no output file at index ");
        let a = decimal_string(index as u64);
        push_all(&mut m, &a);
        push_str(&mut m, " (job produced ");
        let b = decimal_string(outputs.len() as u64);
        push_all(&mut m, &b);
        push_str(&mut m, ")");
        Err(Api2ConvertError::Config(string_from_chars(&m)))
    }
}

/// The download password in effect: an explicit one overrides the
/// remembered one.
pub fn pick_password<'a>(explicit: Option<&'a str>, remembered: &'a Option<String>) -> (r: Option<&'a str>)
    ensures
        match explicit {
            Some(e) => r == Some(e),
            None => match remembered {
                Some(s) => r matches Some(x) && x@ == s@,
                None => r is None,
            },
        },
{
    match explicit {
        Some(e) => Some(e),
        None => match remembered {
            Some(s) => Some(s.as_str()),
            None => None,
        },
    }
}

/// The error text for a download over the cap.
pub open spec fn over_limit_text(max_bytes: u64) -> Seq<char> {
    "download exceeds the "@ + decimal(max_bytes as nat) + "-byte limit"@
}

/// Account for a chunk of `n` bytes after `so_far` bytes: the new total, or a
/// network error when a cap is set (`max_bytes > 0`) and the total passes it.
pub fn add_chunk(so_far: u64, n: u64, max_bytes: u64) -> (r: Result<u64>)
    requires
        so_far + n <= u64::MAX,
    ensures
        max_bytes > 0 && so_far + n > max_bytes ==> (r matches Err(Api2ConvertError::Network(m))
            && m@ == over_limit_text(max_bytes)),
        !(max_bytes > 0 && so_far + n > max_bytes) ==> r == Ok::<u64, Api2ConvertError>(
            (so_far + n) as u64,
        ),
{
    let total: u64 = so_far + n;
    if max_bytes > 0 && total > max_bytes {
        let mut m: Vec<char> = Vec::new();
        push_str(&mut m, "download exceeds the ");
        let d = decimal_string(max_bytes);
        push_all(&mut m, &d);
        push_str(&mut m, "-byte limit");
        return Err(Api2ConvertError::Network(string_from_chars(&m)));
    }
    Ok(total)
}

} // verus!
