//! The library's side of the selector evaluator contract.
//!
//! The evaluator itself (an external path-query tool) runs outside this
//! library and hands back either the raw JSON text of the resolved sub-value
//! or a failure message. This module holds the evaluator's error types and
//! the verified step that turns a resolved raw text into a scalar label
//! value.

use vstd::prelude::*;
use crate::json::{json_text, parse_json, spec_json_text, spec_parse_json};
use crate::utils::{json_value_to_str, spec_json_value_to_str};

verus! {

/// The mathematical value of a [`ValueError`].
#[verifier::ext_equal]
pub ghost struct ValueErrorModel {
    pub message: Seq<char>,
}

/// A value of the wrong shape: a scalar was expected.
#[derive(Clone, Debug)]
pub struct ValueError {
    pub message: String,
}

impl View for ValueError {
    type V = ValueErrorModel;

    open spec fn view(&self) -> ValueErrorModel {
        ValueErrorModel { message: self.message@ }
    }
}

/// The mathematical value of a [`JqError`].
#[verifier::ext_equal]
pub ghost enum JqErrorModel {
    Io(Seq<char>),
    Parser(Seq<char>),
    NonScalar(ValueErrorModel),
}

/// A failure around one evaluator call: the evaluator itself failed (an
/// input/output failure, reported by its message), the returned text was not
/// valid JSON, or the resolved value was not a scalar.
#[derive(Clone, Debug)]
pub enum JqError {
    IoError(String),
    ParserError(String),
    NonScalarValueError(ValueError),
}

impl View for JqError {
    type V = JqErrorModel;

    open spec fn view(&self) -> JqErrorModel {
        match self {
            JqError::IoError(m) => JqErrorModel::Io(m@),
            JqError::ParserError(m) => JqErrorModel::Parser(m@),
            JqError::NonScalarValueError(v) => JqErrorModel::NonScalar(v@),
        }
    }
}

/// What extracting a scalar from a resolved raw JSON text yields: the label
/// text of the parsed value, a parser error for malformed text, or a
/// non-scalar error naming the offending value for any other shape.
pub open spec fn spec_scalar_value(raw: Seq<char>) -> Result<Seq<char>, JqErrorModel> {
    match spec_parse_json(raw) {
        None => Err(JqErrorModel::Parser("invalid JSON"@)),
        Some(v) => match spec_json_value_to_str(&v) {
            Some(s) => Ok(s),
            None => Err(
                JqErrorModel::NonScalar(
                    ValueErrorModel {
                        message: "Expected scalar value. Found "@ + spec_json_text(v),
                    },
                ),
            ),
        },
    }
}

/// Extracts the scalar value of a resolved raw JSON text; see
/// [`spec_scalar_value`].
pub fn json_scalar_value(raw_json: &str) -> (r: Result<String, JqError>)
    ensures
        match r {
            Ok(s) => spec_scalar_value(raw_json@) == Ok::<Seq<char>, JqErrorModel>(s@),
            Err(e) => spec_scalar_value(raw_json@) == Err::<Seq<char>, JqErrorModel>(e@),
        },
{
    match parse_json(raw_json) {
        None => Err(JqError::ParserError(String::from_str("invalid JSON"))),
        Some(v) => match json_value_to_str(&v) {
            Some(s) => Ok(s),
            None => {
                let mut m = String::from_str("Expected scalar value. Found ");
                let vt = json_text(&v);
                m.append(vt.as_str());
                Err(JqError::NonScalarValueError(ValueError { message: m }))
            },
        },
    }
}

} // verus!
