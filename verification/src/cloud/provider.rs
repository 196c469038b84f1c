//! The cloud storage providers the API imports inputs from and delivers
//! outputs to: the values of a cloud descriptor's `source` (input) or `type`
//! (output). Build-side vocabulary only: read models keep these fields as raw
//! strings, so an unknown provider round-trips untyped.

use vstd::prelude::*;

verus! {

pub const AMAZONS3: &'static str = "amazons3";
pub const AZURE: &'static str = "azure";
pub const FTP: &'static str = "ftp";
pub const GDRIVE: &'static str = "gdrive";
pub const GOOGLECLOUD: &'static str = "googlecloud";
pub const YOUTUBE: &'static str = "youtube";

/// The full provider vocabulary, in canonical order.
pub const ALL: [&'static str; 6] = [AMAZONS3, AZURE, FTP, GDRIVE, GOOGLECLOUD, YOUTUBE];

} // verus!
