//! Turns command-line data tokens into a JSON value for a storage API, and
//! classifies the API's answer into success or a readable error.

pub mod error;
pub mod input;
pub mod json;
pub mod payload;
pub mod response;
