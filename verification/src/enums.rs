//! String-valued enumerations from the API. Unknown values are preserved as-is
//! (never rejected), so a newly added status or input type does not break the
//! library.

pub mod input_type;
pub mod job_status;
