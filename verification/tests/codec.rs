//! The JSON entity codec and the hexadecimal normalizer on concrete
//! values, the serialize-then-parse round trip included.

use hex_lookup::entity::{Entity, Field};
use hex_lookup::hex::{normalize_hex, HexFormat};
use hex_lookup::json::{from_json, to_json};

fn entity(pairs: &[(&str, &str)]) -> Entity {
    Entity {
        fields: pairs
            .iter()
            .map(|(k, v)| Field {
                name: k.to_string(),
                value: v.to_string(),
            })
            .collect(),
    }
}

fn assert_same_fields(a: &Entity, b: &Entity) {
    assert_eq!(a.fields.len(), b.fields.len());
    for (fa, fb) in a.fields.iter().zip(b.fields.iter()) {
        assert_eq!(fa.name, fb.name);
        assert_eq!(fa.value, fb.value);
    }
}

#[test]
fn serializes_one_member_per_field() {
    let e = entity(&[("address", "abcdef"), ("kind", "ERC721"), ("supply", "42")]);
    assert_eq!(
        to_json(&e),
        "{\"address\":\"abcdef\",\"kind\":\"ERC721\",\"supply\":\"42\"}"
    );
}

#[test]
fn serializes_the_empty_entity_as_an_empty_object() {
    let e = entity(&[]);
    assert_eq!(to_json(&e), "{}");
}

#[test]
fn round_trips_fields_losslessly() {
    let e = entity(&[
        ("address", "abcdef"),
        ("name", "Everai Heroes"),
        ("symbol", "EVE"),
        ("", "empty name is a field too"),
    ]);
    let parsed = from_json(&to_json(&e)).expect("serialized entity must parse");
    assert_same_fields(&e, &parsed);
}

#[test]
fn round_trips_the_empty_entity() {
    let parsed = from_json("{}").expect("empty object must parse");
    assert_eq!(parsed.fields.len(), 0);
    assert_eq!(to_json(&parsed), "{}");
}

#[test]
fn rejects_malformed_objects() {
    assert!(from_json("").is_none());
    assert!(from_json("{").is_none());
    assert!(from_json("[]").is_none());
    assert!(from_json("{\"a\":\"b\"").is_none());
    assert!(from_json("{\"a\"}").is_none());
    assert!(from_json("{\"a\":\"b\",}").is_none());
    assert!(from_json("{\"a\":\"b\"}x").is_none());
    assert!(from_json("{\"a\":\"b\\\"}").is_none());
    assert!(from_json("{\"a\":1}").is_none());
}

#[test]
fn parses_a_plain_object() {
    let parsed = from_json("{\"address\":\"abcdef\",\"kind\":\"token\"}").expect("must parse");
    assert_eq!(parsed.fields.len(), 2);
    assert_eq!(parsed.fields[0].name, "address");
    assert_eq!(parsed.fields[0].value, "abcdef");
    assert_eq!(parsed.fields[1].name, "kind");
    assert_eq!(parsed.fields[1].value, "token");
}

#[test]
fn normalizes_case_and_prefix() {
    let f = HexFormat::AnyLength;
    assert_eq!(normalize_hex("0xABCDEF", f).as_deref(), Some("abcdef"));
    assert_eq!(normalize_hex("0XAbCd09", f).as_deref(), Some("abcd09"));
    assert_eq!(normalize_hex("ff", f).as_deref(), Some("ff"));
    assert_eq!(normalize_hex("F", f).as_deref(), Some("f"));
}

#[test]
fn rejects_non_hexadecimal_values() {
    let f = HexFormat::AnyLength;
    assert!(normalize_hex("", f).is_none());
    assert!(normalize_hex("0x", f).is_none());
    assert!(normalize_hex("zz11", f).is_none());
    assert!(normalize_hex("12g4", f).is_none());
    assert!(normalize_hex("0x12 34", f).is_none());
    assert!(normalize_hex("0xx12", f).is_none());
}

#[test]
fn byte_pairing_requires_even_length() {
    let f = HexFormat::BytePairs;
    assert!(normalize_hex("abc", f).is_none());
    assert!(normalize_hex("0xabc", f).is_none());
    assert_eq!(normalize_hex("0xABCD", f).as_deref(), Some("abcd"));
    assert!(normalize_hex("", f).is_none());
}

#[test]
fn normalization_is_idempotent() {
    let f = HexFormat::AnyLength;
    let once = normalize_hex("0xDeadBeef", f).unwrap();
    let twice = normalize_hex(&once, f).unwrap();
    assert_eq!(once, twice);
}
