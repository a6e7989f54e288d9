//! Parameter extraction: pulling a named hexadecimal value out of a
//! request and validating its shape.
//!
//! Extraction is a pure function of the request.  It fails with
//! `MissingParameter` when the declared source has no binding of the
//! requested name, and with `InvalidParameter` when the binding exists but
//! is not well-formed hexadecimal; both are client errors.

use crate::hex::{normalize_hex, normalize_hex_spec, valid_hex, HexFormat};
use crate::hex::{is_lower_hex_digit, lemma_normalized_is_lower_hex};
use crate::request::{find_param, get_param, source_params, HttpRequest, ParamSource};
use vstd::prelude::*;

verus! {

/// A validated parameter: a non-empty, normalized (lower-case,
/// prefix-free) hexadecimal string, ready for use as a lookup key.
pub struct Parameter {
    /// The normalized value.
    pub value: String,
}

impl Parameter {
    /// The invariant every extracted parameter satisfies.
    pub open spec fn wf(&self) -> bool {
        &&& self.value@.len() > 0
        &&& forall|i: int| 0 <= i < self.value@.len() ==> is_lower_hex_digit(#[trigger] self.value@[i])
    }
}

/// Why extraction failed; both variants carry the parameter's name and
/// map to a client error.
pub enum ExtractError {
    /// The declared source has no binding of this name.
    MissingParameter(String),
    /// The binding exists but is not well-formed hexadecimal.
    InvalidParameter(String),
}

/// The three possible outcomes of extraction, over views.
pub enum ExtractOutcome {
    /// No binding of the requested name.
    Missing,
    /// A binding that fails hexadecimal validation.
    Invalid,
    /// A well-formed binding, in normalized form.
    Valid(Seq<char>),
}

/// What extracting `name` from `params` under `format` yields.
pub open spec fn extract_spec(
    params: Seq<(String, String)>,
    name: Seq<char>,
    format: HexFormat,
) -> ExtractOutcome {
    match find_param(params, name) {
        Option::None => ExtractOutcome::Missing,
        Option::Some(raw) => if valid_hex(raw, format) {
            ExtractOutcome::Valid(normalize_hex_spec(raw))
        } else {
            ExtractOutcome::Invalid
        },
    }
}

/// Extracts the parameter named `name` from the request's `source` and
/// validates it as hexadecimal of shape `format`.
pub fn extract(req: &HttpRequest, name: &String, source: ParamSource, format: HexFormat) -> (r:
    Result<Parameter, ExtractError>)
    ensures
        match r {
            Ok(p) => extract_spec(source_params(req, source), name@, format)
                == ExtractOutcome::Valid(p.value@) && p.wf(),
            Err(e) => match e {
                ExtractError::MissingParameter(n) => n@ == name@ && extract_spec(
                    source_params(req, source),
                    name@,
                    format,
                ) is Missing,
                ExtractError::InvalidParameter(n) => n@ == name@ && extract_spec(
                    source_params(req, source),
                    name@,
                    format,
                ) is Invalid,
            },
        },
{
    let params = match source {
        ParamSource::Path => &req.path_params,
        ParamSource::Query => &req.query_params,
    };
    match get_param(params, name) {
        Option::None => Err(ExtractError::MissingParameter(name.clone())),
        Option::Some(raw) => match normalize_hex(raw.as_str(), format) {
            Option::None => Err(ExtractError::InvalidParameter(name.clone())),
            Option::Some(value) => {
                proof {
                    lemma_normalized_is_lower_hex(raw@, format);
                }
                Ok(Parameter { value })
            },
        },
    }
}

} // verus!
