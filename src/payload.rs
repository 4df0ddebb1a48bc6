//! The request payload sent to the storage API.

use vstd::prelude::*;

use crate::error::StoreError;
use crate::input::{normalized, parse_data_input, texts, value_of};

verus! {

/// What one invocation sends: the destination project, an optional type
/// label, and the normalized data.
pub struct Payload {
    pub project_slug: String,
    pub data_type: Option<String>,
    pub data: serde_json::Value,
}

impl Payload {
    /// Normalizes the data tokens and wraps the JSON value they stand for
    /// with the project slug and the type label. Fails exactly when the tokens do not normalize,
    /// with the error that normalizing gives.
    pub fn from_inputs(project_slug: String, data_type: Option<String>, inputs: &[String]) -> (r:
        Result<Payload, StoreError>)
        ensures
            match (r, normalized(texts(inputs@))) {
                (Ok(p), Ok(v)) => p.project_slug == project_slug && p.data_type == data_type && p.data
                    == value_of(v),
                (Err(StoreError::InputFormat { token }), Err(t)) => token@ == t,
                _ => false,
            },
    {
        match parse_data_input(inputs) {
            Ok(data) => Ok(Payload { project_slug, data_type, data }),
            Err(e) => Err(e),
        }
    }
}

} // verus!
