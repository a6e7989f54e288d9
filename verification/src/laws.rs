//! The guarantees of the dispatcher, stated over its model and proved
//! once for all requests.

use crate::entity::Entity;
use crate::extract::{extract_spec, ExtractOutcome};
use crate::handler::{handle_spec, responds_to, LookupOutcome};
use crate::hex::HexFormat;
use crate::json::{lemma_round_trip, member_text, members_text, object_text, parse_object};
use crate::entity::lemma_wf_entity_pairs_plain;
use crate::response::{
    message_body_text, message_pairs, missing_param_message, not_found_message,
    store_error_message, HttpResponse, StoreError,
};
use vstd::prelude::*;

verus! {

/// Whether `needle` occurs contiguously inside `hay`.
pub open spec fn text_contains(hay: Seq<char>, needle: Seq<char>) -> bool {
    exists|k: int|
        0 <= k && k + needle.len() <= hay.len() && #[trigger] hay.subrange(
            k,
            k + needle.len() as int,
        ) == needle
}

/// A name embedded in a `{"message":...}` body whose message ends with
/// that name is contained in the body.
proof fn lemma_message_body_contains_suffix(prefix: Seq<char>, name: Seq<char>)
    ensures
        text_contains(message_body_text(prefix + name), name),
{
    let msg = prefix + name;
    let body = message_body_text(msg);
    assert(members_text(message_pairs(msg)) == member_text(("message"@, msg)));
    assert(body =~= seq!['{'] + (seq!['"'] + "message"@ + seq!['"']) + seq![':'] + (seq!['"'] + (
    prefix + name) + seq!['"']) + seq!['}']);
    let k: int = 5 + "message"@.len() as int + prefix.len() as int;
    assert(body.subrange(k, k + name.len() as int) =~= name);
}

/// Every request whose required parameter is absent from its declared
/// source is answered with status 400, whatever the store would have
/// said, and the body names the missing parameter.
pub proof fn lemma_missing_parameter_response(
    params: Seq<(String, String)>,
    name: Seq<char>,
    format: HexFormat,
    outcome: &LookupOutcome,
)
    requires
        extract_spec(params, name, format) is Missing,
    ensures
        handle_spec(params, name, format, outcome).status == 400,
        handle_spec(params, name, format, outcome).body == message_body_text(
            missing_param_message(name),
        ),
        text_contains(handle_spec(params, name, format, outcome).body, name),
{
    lemma_message_body_contains_suffix("missing parameter: "@, name);
}

/// Every request whose required parameter is present but fails
/// hexadecimal validation is answered with status 400, whatever the
/// store would have said.
pub proof fn lemma_invalid_parameter_response(
    params: Seq<(String, String)>,
    name: Seq<char>,
    format: HexFormat,
    outcome: &LookupOutcome,
)
    requires
        extract_spec(params, name, format) is Invalid,
    ensures
        handle_spec(params, name, format, outcome).status == 400,
        text_contains(handle_spec(params, name, format, outcome).body, name),
{
    lemma_message_body_contains_suffix("invalid parameter: "@, name);
}

/// Every request with a valid parameter whose lookup finds an entity is
/// answered with status 200, and the body carries the entity's fields
/// losslessly: parsing the body recovers them exactly.
pub proof fn lemma_found_response(
    params: Seq<(String, String)>,
    name: Seq<char>,
    format: HexFormat,
    e: &Entity,
)
    requires
        extract_spec(params, name, format) is Valid,
        e.wf(),
    ensures
        handle_spec(params, name, format, &LookupOutcome::Found(*e)).status == 200,
        handle_spec(params, name, format, &LookupOutcome::Found(*e)).body == object_text(
            e.pairs(),
        ),
        parse_object(handle_spec(params, name, format, &LookupOutcome::Found(*e)).body) == Some(
            e.pairs(),
        ),
{
    lemma_wf_entity_pairs_plain(e);
    lemma_round_trip(e.pairs());
}

/// Every request with a valid parameter whose lookup finds nothing is
/// answered with status 404, and the body is one fixed text that carries
/// no entity fields.
pub proof fn lemma_absent_response(
    params: Seq<(String, String)>,
    name: Seq<char>,
    format: HexFormat,
)
    requires
        extract_spec(params, name, format) is Valid,
    ensures
        handle_spec(params, name, format, &LookupOutcome::Absent).status == 404,
        handle_spec(params, name, format, &LookupOutcome::Absent).body == message_body_text(
            not_found_message(),
        ),
{
}

/// Every store-level failure is answered with a server-error status in
/// the 5xx range, and the body is one fixed generic text: two failures
/// of the same kind but different internal detail are answered
/// identically, so no internal error text reaches the caller.
pub proof fn lemma_store_failure_response(
    params: Seq<(String, String)>,
    name: Seq<char>,
    format: HexFormat,
    err: &StoreError,
)
    requires
        extract_spec(params, name, format) is Valid,
    ensures
        500 <= handle_spec(params, name, format, &LookupOutcome::Failed(*err)).status <= 599,
        handle_spec(params, name, format, &LookupOutcome::Failed(*err)).body == message_body_text(
            store_error_message(),
        ),
        forall|detail: String|
            handle_spec(
                params,
                name,
                format,
                &LookupOutcome::Failed(StoreError { kind: err.kind, detail }),
            ) == handle_spec(params, name, format, &LookupOutcome::Failed(*err)),
{
}

/// Repeating the same request against an unchanged store yields an
/// identical response: any two responses that realize the dispatch model
/// of the same bindings, declaration and outcome agree in status, body
/// and media type.
pub proof fn lemma_idempotent(
    params: Seq<(String, String)>,
    name: Seq<char>,
    format: HexFormat,
    outcome: &LookupOutcome,
    r1: &HttpResponse,
    r2: &HttpResponse,
)
    requires
        responds_to(r1, handle_spec(params, name, format, outcome)),
        responds_to(r2, handle_spec(params, name, format, outcome)),
    ensures
        r1.status == r2.status,
        r1.body@ == r2.body@,
        r1.content_type@ == r2.content_type@,
{
}

} // verus!
