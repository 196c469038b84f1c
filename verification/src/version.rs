//! The library version, sent in the `User-Agent` header.

use vstd::prelude::*;

verus! {

/// The library version.
pub const VERSION: &'static str = "10.2.0";

} // verus!
