//! The transport's decisions: URL and request construction, the retry
//! policy, `Retry-After` parsing and the mapping of responses to results.

pub mod retry_after;
pub mod encode;
pub mod http;
pub mod request;
