//! The error for a selector that resolved to the wrong shape, referenced a
//! missing field, or could not be evaluated at all. It carries a message and,
//! where available, the underlying evaluator failure.

use vstd::prelude::*;
use crate::jq::{JqError, JqErrorModel};

verus! {

/// The mathematical value of a [`SelectorError`].
#[verifier::ext_equal]
pub ghost struct SelectorErrorModel {
    pub message: Seq<char>,
    pub cause: Option<JqErrorModel>,
}

#[derive(Clone, Debug)]
pub struct SelectorError {
    pub message: String,
    pub cause: Option<JqError>,
}

impl View for SelectorError {
    type V = SelectorErrorModel;

    open spec fn view(&self) -> SelectorErrorModel {
        SelectorErrorModel {
            message: self.message@,
            cause: match self.cause {
                Some(e) => Some(e@),
                None => None,
            },
        }
    }
}

impl SelectorError {
    pub fn new(message: &str, cause: Option<JqError>) -> (r: Self)
        ensures
            r@.message == message@,
            r@.cause == match cause {
                Some(e) => Some(e@),
                None => None::<JqErrorModel>,
            },
    {
        Self { message: String::from_str(message), cause }
    }

    /// Whether an underlying evaluator failure is attached.
    pub fn has_cause(&self) -> (r: bool)
        ensures
            r == self@.cause is Some,
    {
        self.cause.is_some()
    }
}

} // verus!
