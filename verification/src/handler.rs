//! Handler orchestration: extract, then look up, then respond.
//!
//! The handler is split at its one suspension point, the store lookup,
//! which the surrounding process performs.  `begin` runs extraction and
//! either short-circuits to the finished client-error response or hands
//! back the validated parameter; `finish` maps the lookup's outcome to
//! the final response.  `handle_spec` is the total model of the whole
//! dispatch, and the proof functions of `laws` state its guarantees.

use crate::entity::Entity;
use crate::extract::{extract, extract_spec, ExtractError, ExtractOutcome, Parameter};
use crate::hex::HexFormat;
use crate::json::object_text;
use crate::request::{source_params, HttpRequest, ParamSource};
use crate::response::{client_error_rsp, entity_rsp, not_found_rsp, store_error_rsp};
use crate::response::{
    extract_error_message, invalid_param_message, json_content_type, message_body_text,
    missing_param_message, not_found_message, store_error_message, store_error_status,
};
use crate::response::{HttpResponse, StoreError};
use vstd::prelude::*;

verus! {

/// What the store lookup produced: the entity, its absence, or a
/// store-level failure.  Absence is not a failure.
pub enum LookupOutcome {
    /// The key exists; here is its entity.
    Found(Entity),
    /// The key does not exist.
    Absent,
    /// The lookup itself failed.
    Failed(StoreError),
}

/// Where handling stands after extraction: either the lookup key is
/// validated and the one store call may proceed, or the response is
/// already determined.
pub enum HandlerStep {
    /// Extraction succeeded; look this parameter up, then `finish`.
    NeedLookup(Parameter),
    /// Extraction failed; the response is final, no lookup happens.
    Done(HttpResponse),
}

/// The model of a response: status code and body text.
pub struct ResponseModel {
    /// The status code.
    pub status: int,
    /// The body.
    pub body: Seq<char>,
}

/// Whether an HTTP response realizes a model.
pub open spec fn responds_to(r: &HttpResponse, m: ResponseModel) -> bool {
    &&& r.status as int == m.status
    &&& r.body@ == m.body
    &&& r.content_type@ == json_content_type()
}

/// The response owed to a lookup outcome, once extraction has succeeded.
pub open spec fn outcome_response_spec(outcome: &LookupOutcome) -> ResponseModel {
    match outcome {
        LookupOutcome::Found(e) => ResponseModel { status: 200, body: object_text(e.pairs()) },
        LookupOutcome::Absent => ResponseModel {
            status: 404,
            body: message_body_text(not_found_message()),
        },
        LookupOutcome::Failed(err) => ResponseModel {
            status: store_error_status(err.kind),
            body: message_body_text(store_error_message()),
        },
    }
}

/// The total model of the dispatch: what response a request owes, given
/// the parameter bindings, the parameter's declaration, and the outcome
/// the store would produce for the validated key.  When extraction
/// fails, the outcome is never consulted.
pub open spec fn handle_spec(
    params: Seq<(String, String)>,
    name: Seq<char>,
    format: HexFormat,
    outcome: &LookupOutcome,
) -> ResponseModel {
    match extract_spec(params, name, format) {
        ExtractOutcome::Missing => ResponseModel {
            status: 400,
            body: message_body_text(missing_param_message(name)),
        },
        ExtractOutcome::Invalid => ResponseModel {
            status: 400,
            body: message_body_text(invalid_param_message(name)),
        },
        ExtractOutcome::Valid(_) => outcome_response_spec(outcome),
    }
}

/// Runs extraction for the request's one required parameter.  On failure
/// the returned step already carries the final client-error response; on
/// success it carries the validated lookup key, and the caller performs
/// exactly one store lookup before calling `finish`.
pub fn begin(req: &HttpRequest, name: &String, source: ParamSource, format: HexFormat) -> (r:
    HandlerStep)
    ensures
        match r {
            HandlerStep::NeedLookup(p) => p.wf() && extract_spec(
                source_params(req, source),
                name@,
                format,
            ) == ExtractOutcome::Valid(p.value@),
            HandlerStep::Done(resp) => !(extract_spec(source_params(req, source), name@, format)
                is Valid) && forall|o: LookupOutcome|
                responds_to(&resp, handle_spec(source_params(req, source), name@, format, &o)),
        },
{
    match extract(req, name, source, format) {
        Ok(p) => HandlerStep::NeedLookup(p),
        Err(e) => {
            let resp = client_error_rsp(&e);
            proof {
                match e {
                    ExtractError::MissingParameter(n) => {
                        assert(extract_error_message(&e) == missing_param_message(name@));
                    },
                    ExtractError::InvalidParameter(n) => {
                        assert(extract_error_message(&e) == invalid_param_message(name@));
                    },
                }
            }
            HandlerStep::Done(resp)
        },
    }
}

/// Maps the store lookup's outcome to the final response.  The mapping
/// is total: found, absent and failed each yield exactly one response.
pub fn finish(outcome: &LookupOutcome) -> (r: HttpResponse)
    ensures
        responds_to(&r, outcome_response_spec(outcome)),
{
    match outcome {
        LookupOutcome::Found(e) => entity_rsp(e),
        LookupOutcome::Absent => not_found_rsp(),
        LookupOutcome::Failed(err) => store_error_rsp(err),
    }
}

} // verus!
