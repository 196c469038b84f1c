//! Input `type` values. The library builds `remote` (URL), `upload` (local
//! file) and `cloud` inputs itself; the others travel as raw descriptors.

use vstd::prelude::*;

verus! {

pub const UPLOAD: &'static str = "upload";
pub const REMOTE: &'static str = "remote";
pub const OUTPUT: &'static str = "output";
pub const INPUT_ID: &'static str = "input_id";
pub const GDRIVE_PICKER: &'static str = "gdrive_picker";
pub const BASE64: &'static str = "base64";
pub const CLOUD: &'static str = "cloud";

} // verus!
