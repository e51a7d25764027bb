use vstd::prelude::*;

use crate::error::{Code, Error};

verus! {

/// What the pool broadcasts to its observers.
#[derive(Debug)]
pub enum Event {
    Log(String),
    Warn(String),
    Error(Error),
    LogError(String),
}

impl Event {
    /// This event is an error carrying the given code.
    pub open spec fn is_error_with(&self, code: Code) -> bool {
        match self {
            Event::Error(e) => e.spec_code() == code,
            _ => false,
        }
    }
}

} // verus!
