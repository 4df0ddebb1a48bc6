//! The library's error kinds.

use vstd::prelude::*;

verus! {

/// Why an invocation failed. The three kinds are never conflated.
#[derive(Debug, Clone)]
pub enum StoreError {
    /// A data token in key=value mode had no `=`; holds that token.
    InputFormat { token: String },
    /// The request could not be completed; holds the underlying cause.
    Transport { cause: String },
    /// The API answered with a non-success status; holds the friendly message.
    ApiRequest { message: String },
}

/// The first line shown for an error.
pub open spec fn headline(e: StoreError) -> Seq<char> {
    match e {
        StoreError::InputFormat { .. } => "Failed to parse data input"@,
        StoreError::Transport { .. } => "Failed to send request to API"@,
        StoreError::ApiRequest { message } => "API request failed: "@ + message@,
    }
}

/// The underlying cause shown below the first line, if any.
pub open spec fn cause_of(e: StoreError) -> Option<Seq<char>> {
    match e {
        StoreError::InputFormat { token } => Some(
            "Invalid key=value pair: '"@ + token@ + "'. Expected format: key=value"@,
        ),
        StoreError::Transport { cause } => Some(cause@),
        StoreError::ApiRequest { .. } => None,
    }
}

impl StoreError {
    /// The first line shown for this error.
    pub fn headline(&self) -> (r: String)
        ensures
            r@ == headline(*self),
    {
        match self {
            StoreError::InputFormat { .. } => String::from_str("Failed to parse data input"),
            StoreError::Transport { .. } => String::from_str("Failed to send request to API"),
            StoreError::ApiRequest { message } => String::from_str("API request failed: ").concat(
                message.as_str(),
            ),
        }
    }

    /// The underlying cause shown below the first line, if any.
    pub fn cause(&self) -> (r: Option<String>)
        ensures
            match (r, cause_of(*self)) {
                (Some(s), Some(t)) => s@ == t,
                (None, None) => true,
                _ => false,
            },
    {
        match self {
            StoreError::InputFormat { token } => {
                let mut s = String::from_str("Invalid key=value pair: '");
                s.append(token.as_str());
                s.append("'. Expected format: key=value");
                Some(s)
            },
            StoreError::Transport { cause } => Some(cause.clone()),
            StoreError::ApiRequest { .. } => None,
        }
    }
}

} // verus!
