//! End-to-end behaviour of the dispatcher: one test per example
//! scenario, plus the general guarantees checked on concrete values.

use hex_lookup::entity::{Entity, Field};
use hex_lookup::handler::{begin, finish, HandlerStep, LookupOutcome};
use hex_lookup::hex::HexFormat;
use hex_lookup::request::{HttpRequest, ParamSource};
use hex_lookup::response::{HttpResponse, StoreError, StoreErrorKind};

fn request_with_path(pairs: &[(&str, &str)]) -> HttpRequest {
    HttpRequest {
        path_params: pairs
            .iter()
            .map(|(k, v)| (k.to_string(), v.to_string()))
            .collect(),
        query_params: Vec::new(),
    }
}

fn entity(pairs: &[(&str, &str)]) -> Entity {
    Entity {
        fields: pairs
            .iter()
            .map(|(k, v)| Field {
                name: k.to_string(),
                value: v.to_string(),
            })
            .collect(),
    }
}

/// Runs one whole request against a store modelled by `outcome`.
fn dispatch(req: &HttpRequest, outcome: LookupOutcome) -> HttpResponse {
    let name = String::from("contract_address");
    match begin(req, &name, ParamSource::Path, HexFormat::AnyLength) {
        HandlerStep::Done(resp) => resp,
        HandlerStep::NeedLookup(_param) => finish(&outcome),
    }
}

#[test]
fn found_entity_returns_200_with_serialized_fields() {
    let req = request_with_path(&[("contract_address", "0xABCDEF")]);
    let name = String::from("contract_address");
    let step = begin(&req, &name, ParamSource::Path, HexFormat::AnyLength);
    let key = match step {
        HandlerStep::NeedLookup(p) => p.value,
        HandlerStep::Done(_) => panic!("extraction should succeed"),
    };
    assert_eq!(key, "abcdef");
    let e = entity(&[("address", "abcdef"), ("name", "Sample")]);
    let resp = finish(&LookupOutcome::Found(e));
    assert_eq!(resp.status, 200);
    assert_eq!(resp.content_type, "application/json");
    assert_eq!(resp.body, "{\"address\":\"abcdef\",\"name\":\"Sample\"}");
}

#[test]
fn missing_parameter_returns_400_naming_it() {
    let req = request_with_path(&[]);
    let resp = dispatch(&req, LookupOutcome::Absent);
    assert_eq!(resp.status, 400);
    assert_eq!(
        resp.body,
        "{\"message\":\"missing parameter: contract_address\"}"
    );
}

#[test]
fn invalid_hex_returns_400() {
    let req = request_with_path(&[("contract_address", "zz11")]);
    let resp = dispatch(&req, LookupOutcome::Absent);
    assert_eq!(resp.status, 400);
    assert_eq!(
        resp.body,
        "{\"message\":\"invalid parameter: contract_address\"}"
    );
}

#[test]
fn absent_entity_returns_404_fixed_body() {
    let req = request_with_path(&[("contract_address", "abcdef")]);
    let resp = dispatch(&req, LookupOutcome::Absent);
    assert_eq!(resp.status, 404);
    assert_eq!(resp.body, "{\"message\":\"not found\"}");
}

#[test]
fn store_timeout_returns_502_generic_body() {
    let req = request_with_path(&[("contract_address", "abcdef")]);
    let err = StoreError {
        kind: StoreErrorKind::Timeout,
        detail: String::from("connect timeout after 30s to 10.0.0.7:8000"),
    };
    let resp = dispatch(&req, LookupOutcome::Failed(err));
    assert_eq!(resp.status, 502);
    assert_eq!(resp.body, "{\"message\":\"error while querying the store\"}");
    assert!(!resp.body.contains("30s"));
    assert!(!resp.body.contains("10.0.0.7"));
}

#[test]
fn store_unavailable_returns_502() {
    let req = request_with_path(&[("contract_address", "ff")]);
    let err = StoreError {
        kind: StoreErrorKind::Unavailable,
        detail: String::from("no reachable endpoint"),
    };
    let resp = dispatch(&req, LookupOutcome::Failed(err));
    assert_eq!(resp.status, 502);
    assert_eq!(resp.body, "{\"message\":\"error while querying the store\"}");
}

#[test]
fn store_decode_error_returns_500() {
    let req = request_with_path(&[("contract_address", "ff")]);
    let err = StoreError {
        kind: StoreErrorKind::DecodeError,
        detail: String::from("unexpected attribute type"),
    };
    let resp = dispatch(&req, LookupOutcome::Failed(err));
    assert_eq!(resp.status, 500);
    assert_eq!(resp.body, "{\"message\":\"error while querying the store\"}");
}

#[test]
fn repeating_a_request_yields_an_identical_response() {
    let req = request_with_path(&[("contract_address", "0xAB12")]);
    let make = || {
        let e = entity(&[("address", "ab12"), ("supply", "1000")]);
        dispatch(&req, LookupOutcome::Found(e))
    };
    let r1 = make();
    let r2 = make();
    assert_eq!(r1.status, r2.status);
    assert_eq!(r1.body, r2.body);
    assert_eq!(r1.content_type, r2.content_type);
}

#[test]
fn query_source_is_honoured() {
    let req = HttpRequest {
        path_params: Vec::new(),
        query_params: vec![(String::from("token_id"), String::from("0x0042"))],
    };
    let name = String::from("token_id");
    let step = begin(&req, &name, ParamSource::Query, HexFormat::AnyLength);
    match step {
        HandlerStep::NeedLookup(p) => assert_eq!(p.value, "0042"),
        HandlerStep::Done(_) => panic!("extraction should succeed"),
    }
    let step_path = begin(&req, &name, ParamSource::Path, HexFormat::AnyLength);
    match step_path {
        HandlerStep::Done(resp) => assert_eq!(resp.status, 400),
        HandlerStep::NeedLookup(_) => panic!("path source has no such parameter"),
    }
}

#[test]
fn first_binding_of_a_duplicated_name_wins() {
    let req = HttpRequest {
        path_params: Vec::new(),
        query_params: vec![
            (String::from("id"), String::from("aa")),
            (String::from("id"), String::from("bb")),
        ],
    };
    let name = String::from("id");
    match begin(&req, &name, ParamSource::Query, HexFormat::AnyLength) {
        HandlerStep::NeedLookup(p) => assert_eq!(p.value, "aa"),
        HandlerStep::Done(_) => panic!("extraction should succeed"),
    }
}

#[test]
fn odd_length_is_rejected_when_byte_pairs_are_required() {
    let req = request_with_path(&[("contract_address", "abc")]);
    let name = String::from("contract_address");
    match begin(&req, &name, ParamSource::Path, HexFormat::BytePairs) {
        HandlerStep::Done(resp) => {
            assert_eq!(resp.status, 400);
            assert_eq!(
                resp.body,
                "{\"message\":\"invalid parameter: contract_address\"}"
            );
        }
        HandlerStep::NeedLookup(_) => panic!("odd-length value must be rejected"),
    }
    let req_even = request_with_path(&[("contract_address", "abcd")]);
    match begin(&req_even, &name, ParamSource::Path, HexFormat::BytePairs) {
        HandlerStep::NeedLookup(p) => assert_eq!(p.value, "abcd"),
        HandlerStep::Done(_) => panic!("even-length value must pass"),
    }
}
