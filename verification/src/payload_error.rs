//! The failure of one derivation pass: an evaluator input/output failure,
//! malformed JSON, or a selector of the wrong shape. All are fatal to the
//! pass; no partial metric list is returned.

use vstd::prelude::*;
use crate::custom_include::{CustomIncludeError, CustomIncludeErrorModel};
use crate::selector_error::{SelectorError, SelectorErrorModel};

verus! {

/// The mathematical value of a [`PayloadError`].
#[verifier::ext_equal]
pub ghost enum PayloadErrorModel {
    Io(Seq<char>),
    Json(Seq<char>),
    Selector(SelectorErrorModel),
}

#[derive(Debug)]
pub enum PayloadError {
    IOError(String),
    JsonError(String),
    SelectorError(SelectorError),
}

impl View for PayloadError {
    type V = PayloadErrorModel;

    open spec fn view(&self) -> PayloadErrorModel {
        match self {
            PayloadError::IOError(m) => PayloadErrorModel::Io(m@),
            PayloadError::JsonError(m) => PayloadErrorModel::Json(m@),
            PayloadError::SelectorError(e) => PayloadErrorModel::Selector(e@),
        }
    }
}

/// How an include failure surfaces from a pass: input/output and JSON
/// failures keep their kind, a selector failure becomes a selector error
/// without an underlying cause.
pub open spec fn spec_payload_error_of_include(e: CustomIncludeErrorModel) -> PayloadErrorModel {
    match e {
        CustomIncludeErrorModel::Io(m) => PayloadErrorModel::Io(m),
        CustomIncludeErrorModel::Json(m) => PayloadErrorModel::Json(m),
        CustomIncludeErrorModel::Selector(m) => PayloadErrorModel::Selector(
            SelectorErrorModel { message: m, cause: None },
        ),
    }
}

/// See [`spec_payload_error_of_include`].
pub fn payload_error_of_include(e: CustomIncludeError) -> (r: PayloadError)
    ensures
        r@ == spec_payload_error_of_include(e@),
{
    match e {
        CustomIncludeError::IOError(m) => PayloadError::IOError(m),
        CustomIncludeError::JsonError(m) => PayloadError::JsonError(m),
        CustomIncludeError::SelectorError(m) => PayloadError::SelectorError(
            SelectorError { message: m, cause: None },
        ),
    }
}

} // verus!
