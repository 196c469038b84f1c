//! A client library for the API2Convert file-conversion API: the requests it
//! sends, the decisions it takes on what comes back, and the data model of
//! jobs, inputs, outputs and errors, each stated in its contract.

use vstd::prelude::*;

pub mod client;
pub mod cloud;
pub mod config;
pub mod convert_options;
pub mod data;
pub mod download;
pub mod enums;
pub mod errors;
pub mod json;
pub mod models;
pub mod nearest;
pub mod numbers;
pub mod parse;
pub mod paths;
pub mod poll;
pub mod redact;
pub mod resources;
pub mod rng;
pub mod text;
pub mod transport;
pub mod upload;
pub mod version;
pub mod webhook;

verus! {

} // verus!
