//! Validation and normalization of hexadecimal parameters.
//!
//! A raw parameter value is accepted when, after an optional `0x`/`0X`
//! prefix, it consists of one or more hexadecimal digits (and, when byte
//! pairing is required, an even number of them).  The normalized form is
//! the digit sequence with the prefix stripped and upper-case digits
//! lowered, ready for use as a lookup key.

use vstd::prelude::*;

verus! {

/// Expected syntactic shape of a hexadecimal parameter.
#[derive(Clone, Copy, PartialEq, Eq, Structural, Debug)]
pub enum HexFormat {
    /// Any positive number of hexadecimal digits.
    AnyLength,
    /// An even number of hexadecimal digits: whole byte pairs.
    BytePairs,
}

/// A hexadecimal digit, either case.
pub open spec fn is_hex_digit(c: char) -> bool {
    ('0' as u32 <= c as u32 && c as u32 <= '9' as u32) || ('a' as u32 <= c as u32 && c as u32
        <= 'f' as u32) || ('A' as u32 <= c as u32 && c as u32 <= 'F' as u32)
}

/// A hexadecimal digit in normalized (lower) case.
pub open spec fn is_lower_hex_digit(c: char) -> bool {
    ('0' as u32 <= c as u32 && c as u32 <= '9' as u32) || ('a' as u32 <= c as u32 && c as u32
        <= 'f' as u32)
}

/// Lower-cases the six upper-case hexadecimal digits; other characters
/// are left unchanged.
pub open spec fn to_lower_hex(c: char) -> char {
    match c {
        'A' => 'a',
        'B' => 'b',
        'C' => 'c',
        'D' => 'd',
        'E' => 'e',
        'F' => 'f',
        _ => c,
    }
}

/// Whether the value starts with a `0x` or `0X` prefix.
pub open spec fn has_hex_prefix(s: Seq<char>) -> bool {
    s.len() >= 2 && s[0] == '0' && (s[1] == 'x' || s[1] == 'X')
}

/// The value with its `0x`/`0X` prefix, if any, removed.
pub open spec fn strip_hex_prefix(s: Seq<char>) -> Seq<char> {
    if has_hex_prefix(s) {
        s.skip(2)
    } else {
        s
    }
}

/// Whether a prefix-free digit sequence is acceptable under `format`.
pub open spec fn hex_digits_ok(t: Seq<char>, format: HexFormat) -> bool {
    &&& t.len() > 0
    &&& forall|i: int| 0 <= i < t.len() ==> is_hex_digit(#[trigger] t[i])
    &&& (format is BytePairs ==> t.len() % 2 == 0)
}

/// Whether a raw parameter value is a well-formed hexadecimal value.
pub open spec fn valid_hex(s: Seq<char>, format: HexFormat) -> bool {
    hex_digits_ok(strip_hex_prefix(s), format)
}

/// The normalized form of a raw value: prefix stripped, digits lowered.
pub open spec fn normalize_hex_spec(s: Seq<char>) -> Seq<char> {
    strip_hex_prefix(s).map_values(|c: char| to_lower_hex(c))
}

/// Every normalized form of a valid value consists of lower-case
/// hexadecimal digits only, and is non-empty.
pub proof fn lemma_normalized_is_lower_hex(s: Seq<char>, format: HexFormat)
    requires
        valid_hex(s, format),
    ensures
        normalize_hex_spec(s).len() > 0,
        forall|i: int|
            0 <= i < normalize_hex_spec(s).len() ==> is_lower_hex_digit(
                #[trigger] normalize_hex_spec(s)[i],
            ),
{
    let t = strip_hex_prefix(s);
    assert forall|i: int| 0 <= i < normalize_hex_spec(s).len() implies is_lower_hex_digit(
        normalize_hex_spec(s)[i],
    ) by {
        assert(is_hex_digit(t[i]));
        assert(normalize_hex_spec(s)[i] == to_lower_hex(t[i]));
    }
}

/// Lower-cases one hexadecimal digit, as a borrowed one-character string.
fn lower_hex_digit_str(c: char) -> (r: &'static str)
    requires
        is_hex_digit(c),
    ensures
        r@ == seq![to_lower_hex(c)],
{
    let r: &'static str = match c {
        '0' => "0",
        '1' => "1",
        '2' => "2",
        '3' => "3",
        '4' => "4",
        '5' => "5",
        '6' => "6",
        '7' => "7",
        '8' => "8",
        '9' => "9",
        'a' | 'A' => "a",
        'b' | 'B' => "b",
        'c' | 'C' => "c",
        'd' | 'D' => "d",
        'e' | 'E' => "e",
        _ => "f",
    };
    proof {
        reveal_strlit("0");
        reveal_strlit("1");
        reveal_strlit("2");
        reveal_strlit("3");
        reveal_strlit("4");
        reveal_strlit("5");
        reveal_strlit("6");
        reveal_strlit("7");
        reveal_strlit("8");
        reveal_strlit("9");
        reveal_strlit("a");
        reveal_strlit("b");
        reveal_strlit("c");
        reveal_strlit("d");
        reveal_strlit("e");
        reveal_strlit("f");
        assert(r@ =~= seq![to_lower_hex(c)]);
    }
    r
}

/// Whether one character is a hexadecimal digit.
fn is_hex_digit_char(c: char) -> (r: bool)
    ensures
        r == is_hex_digit(c),
{
    let u = c as u32;
    ('0' as u32 <= u && u <= '9' as u32) || ('a' as u32 <= u && u <= 'f' as u32) || ('A' as u32
        <= u && u <= 'F' as u32)
}

/// Validates a raw parameter value and returns its normalized form, or
/// `None` exactly when the value is not well-formed hexadecimal under
/// `format`.
pub fn normalize_hex(raw: &str, format: HexFormat) -> (r: Option<String>)
    ensures
        match r {
            Some(v) => valid_hex(raw@, format) && v@ == normalize_hex_spec(raw@),
            None => !valid_hex(raw@, format),
        },
{
    let n = raw.unicode_len();
    let start: usize = if n >= 2 && raw.get_char(0) == '0' && (raw.get_char(1) == 'x'
        || raw.get_char(1) == 'X') {
        2
    } else {
        0
    };
    let ghost body = strip_hex_prefix(raw@);
    proof {
        assert(body =~= raw@.skip(start as int));
    }
    if n == start {
        return None;
    }
    if matches!(format, HexFormat::BytePairs) && (n - start) % 2 != 0 {
        return None;
    }
    let mut out = String::new();
    let mut i: usize = start;
    while i < n
        invariant
            start <= i <= n,
            n == raw@.len(),
            body == strip_hex_prefix(raw@),
            body == raw@.skip(start as int),
            forall|k: int| 0 <= k < i - start ==> is_hex_digit(#[trigger] body[k]),
            out@ == body.take(i - start).map_values(|c: char| to_lower_hex(c)),
        decreases n - i,
    {
        let c = raw.get_char(i);
        if !is_hex_digit_char(c) {
            proof {
                assert(body[i - start] == raw@[i as int]);
                assert(!hex_digits_ok(body, format));
            }
            return None;
        }
        out.append(lower_hex_digit_str(c));
        proof {
            assert(body[i - start] == raw@[i as int]);
            assert(body.take(i - start + 1).map_values(|c: char| to_lower_hex(c)) =~= body.take(
                i - start,
            ).map_values(|c: char| to_lower_hex(c)) + seq![to_lower_hex(body[i - start])]);
        }
        i += 1;
    }
    proof {
        assert(body.take(n - start) =~= body);
        assert(hex_digits_ok(body, format));
    }
    Some(out)
}

} // verus!
