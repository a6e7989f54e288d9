//! The response mapper: every reachable outcome of extraction and lookup
//! maps to exactly one HTTP response with a JSON body.
//!
//! Client errors name the offending parameter; server errors carry one
//! fixed generic message, so nothing of the store's internal failure text
//! reaches the caller.

use crate::entity::Entity;
use crate::extract::ExtractError;
use crate::json::{member_text, members_text, object_text, to_json, JsonPair};
use vstd::prelude::*;

verus! {

/// How a store-level lookup failed.  Absence of the entity is not a
/// failure and is not represented here.
#[derive(Clone, Copy, PartialEq, Eq, Structural, Debug)]
pub enum StoreErrorKind {
    /// The store could not be reached.
    Unavailable,
    /// The store did not answer in time.
    Timeout,
    /// The store answered with data that could not be decoded.
    DecodeError,
}

/// A store-level failure: its kind, and free-form diagnostic detail that
/// is meant for server-side logs and never for the response body.
pub struct StoreError {
    /// What went wrong.
    pub kind: StoreErrorKind,
    /// Internal diagnostic text; never echoed to the caller.
    pub detail: String,
}

/// An outbound HTTP response.
pub struct HttpResponse {
    /// The status code.
    pub status: u16,
    /// The media type of the body.
    pub content_type: String,
    /// The body, a JSON text.
    pub body: String,
}

/// The media type of every body this mapper produces.
pub open spec fn json_content_type() -> Seq<char> {
    "application/json"@
}

/// A body of the shape `{"message":...}`.
pub open spec fn message_pairs(msg: Seq<char>) -> Seq<JsonPair> {
    seq![("message"@, msg)]
}

/// The serialized `{"message":...}` body.
pub open spec fn message_body_text(msg: Seq<char>) -> Seq<char> {
    object_text(message_pairs(msg))
}

/// The fixed not-found message.
pub open spec fn not_found_message() -> Seq<char> {
    "not found"@
}

/// The client-error message for an absent parameter.
pub open spec fn missing_param_message(name: Seq<char>) -> Seq<char> {
    "missing parameter: "@ + name
}

/// The client-error message for a malformed parameter.
pub open spec fn invalid_param_message(name: Seq<char>) -> Seq<char> {
    "invalid parameter: "@ + name
}

/// The one generic message used for every store-level failure.
pub open spec fn store_error_message() -> Seq<char> {
    "error while querying the store"@
}

/// The status code of a store-level failure: a gateway error for an
/// unreachable or silent store, an internal error for undecodable data.
pub open spec fn store_error_status(kind: StoreErrorKind) -> int {
    match kind {
        StoreErrorKind::Unavailable => 502,
        StoreErrorKind::Timeout => 502,
        StoreErrorKind::DecodeError => 500,
    }
}

/// The message a client error carries.
pub open spec fn extract_error_message(e: &ExtractError) -> Seq<char> {
    match e {
        ExtractError::MissingParameter(n) => missing_param_message(n@),
        ExtractError::InvalidParameter(n) => invalid_param_message(n@),
    }
}

/// Builds the serialized `{"message":...}` body for `msg`.
fn message_body(msg: &str) -> (r: String)
    ensures
        r@ == message_body_text(msg@),
{
    proof {
        reveal_strlit("{\"message\":\"");
        reveal_strlit("\"}");
        reveal_strlit("message");
    }
    let mut out = String::new();
    out.append("{\"message\":\"");
    out.append(msg);
    out.append("\"}");
    proof {
        assert(member_text(("message"@, msg@)) == seq!['"'] + "message"@ + seq!['"'] + seq![':']
            + (seq!['"'] + msg@ + seq!['"']));
        assert(members_text(message_pairs(msg@)) == member_text(("message"@, msg@)));
        assert(out@ =~= message_body_text(msg@));
    }
    out
}

/// Builds the response that returns a found entity: status 200, the
/// entity serialized as one JSON object.
pub fn entity_rsp(e: &Entity) -> (r: HttpResponse)
    ensures
        r.status == 200,
        r.content_type@ == json_content_type(),
        r.body@ == object_text(e.pairs()),
{
    HttpResponse { status: 200, content_type: content_type_json(), body: to_json(e) }
}

/// Builds the fixed not-found response: status 404, a body that carries
/// nothing of any entity.
pub fn not_found_rsp() -> (r: HttpResponse)
    ensures
        r.status == 404,
        r.content_type@ == json_content_type(),
        r.body@ == message_body_text(not_found_message()),
{
    HttpResponse {
        status: 404,
        content_type: content_type_json(),
        body: message_body("not found"),
    }
}

/// Builds the client-error response for a failed extraction: status 400,
/// a body that names the parameter.
pub fn client_error_rsp(e: &ExtractError) -> (r: HttpResponse)
    ensures
        r.status == 400,
        r.content_type@ == json_content_type(),
        r.body@ == message_body_text(extract_error_message(e)),
{
    let msg = match e {
        ExtractError::MissingParameter(n) => {
            let mut m = String::new();
            m.append("missing parameter: ");
            m.append(n.as_str());
            m
        },
        ExtractError::InvalidParameter(n) => {
            let mut m = String::new();
            m.append("invalid parameter: ");
            m.append(n.as_str());
            m
        },
    };
    HttpResponse { status: 400, content_type: content_type_json(), body: message_body(msg.as_str()) }
}

/// Builds the server-error response for a store-level failure.  The body
/// is one fixed generic message, a function of the failure's kind alone:
/// the error's diagnostic detail does not reach the caller.
pub fn store_error_rsp(e: &StoreError) -> (r: HttpResponse)
    ensures
        r.status == store_error_status(e.kind),
        500 <= r.status <= 599,
        r.content_type@ == json_content_type(),
        r.body@ == message_body_text(store_error_message()),
{
    let status: u16 = match e.kind {
        StoreErrorKind::Unavailable => 502,
        StoreErrorKind::Timeout => 502,
        StoreErrorKind::DecodeError => 500,
    };
    HttpResponse {
        status,
        content_type: content_type_json(),
        body: message_body("error while querying the store"),
    }
}

/// The `application/json` media type, as an owned string.
fn content_type_json() -> (r: String)
    ensures
        r@ == json_content_type(),
{
    let mut s = String::new();
    s.append("application/json");
    s
}

} // verus!
