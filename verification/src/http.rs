//! The HTTP surface's error type and evaluate-outcome counter.
use vstd::prelude::*;

verus! {

/// An error answered by the HTTP evaluate endpoint.
#[derive(Debug)]
pub enum EngineHttpError {
    BadRequest(String),
}

impl EngineHttpError {
    /// The HTTP status code of the error.
    pub fn status_code(&self) -> (r: u16)
        ensures
            match self {
                EngineHttpError::BadRequest(_) => r == 400,
            },
    {
        match self {
            EngineHttpError::BadRequest(_) => 400,
        }
    }

    /// The message carried in the error body.
    pub fn message(&self) -> (r: &str)
        ensures
            match self {
                EngineHttpError::BadRequest(m) => r@ == m@,
            },
    {
        match self {
            EngineHttpError::BadRequest(m) => m.as_str(),
        }
    }
}

} // verus!
