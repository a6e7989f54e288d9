//! Serialization of entities to flat JSON objects, and the matching
//! parser.  Serialization followed by parsing is proved to be the
//! identity on well-formed field lists, so a response body loses nothing
//! of the entity it carries.

use crate::entity::{is_json_plain_char, json_plain, json_plain_char, pairs_plain};
use crate::entity::{Entity, Field};
use vstd::prelude::*;

verus! {

/// A name/value pair of character sequences.
pub type JsonPair = (Seq<char>, Seq<char>);

/// A string wrapped in quotes, unescaped.
pub open spec fn quoted(s: Seq<char>) -> Seq<char> {
    seq!['"'] + s + seq!['"']
}

/// One object member: `"name":"value"`.
pub open spec fn member_text(f: JsonPair) -> Seq<char> {
    quoted(f.0) + seq![':'] + quoted(f.1)
}

/// The members of an object, comma-separated.
pub open spec fn members_text(fs: Seq<JsonPair>) -> Seq<char>
    decreases fs.len(),
{
    if fs.len() == 0 {
        Seq::empty()
    } else if fs.len() == 1 {
        member_text(fs[0])
    } else {
        member_text(fs[0]) + seq![','] + members_text(fs.drop_first())
    }
}

/// A whole object: the members wrapped in braces.
pub open spec fn object_text(fs: Seq<JsonPair>) -> Seq<char> {
    seq!['{'] + members_text(fs) + seq!['}']
}

/// Appending one more member appends a comma and that member's text.
pub proof fn lemma_members_text_push(fs: Seq<JsonPair>, f: JsonPair)
    requires
        fs.len() >= 1,
    ensures
        members_text(fs.push(f)) == members_text(fs) + seq![','] + member_text(f),
    decreases fs.len(),
{
    if fs.len() == 1 {
        assert(fs.push(f).drop_first() =~= seq![f]);
        assert(members_text(seq![f]) == member_text(f));
        assert(fs.push(f)[0] == fs[0]);
        assert(members_text(fs.push(f)) =~= members_text(fs) + seq![','] + member_text(f));
    } else {
        lemma_members_text_push(fs.drop_first(), f);
        assert(fs.push(f).drop_first() =~= fs.drop_first().push(f));
        assert(fs.push(f)[0] == fs[0]);
        assert(members_text(fs.push(f)) =~= members_text(fs) + seq![','] + member_text(f));
    }
}

/// Serializes an entity as one JSON object, one member per attribute.
pub fn to_json(e: &Entity) -> (r: String)
    ensures
        r@ == object_text(e.pairs()),
{
    proof {
        reveal_strlit("{");
        reveal_strlit("}");
        reveal_strlit("\"");
        reveal_strlit(":");
        reveal_strlit(",");
    }
    let mut out = String::new();
    out.append("{");
    let n = e.fields.len();
    let mut i: usize = 0;
    while i < n
        invariant
            0 <= i <= n,
            n == e.fields@.len(),
            "{"@ == seq!['{'],
            "}"@ == seq!['}'],
            "\""@ == seq!['"'],
            ":"@ == seq![':'],
            ","@ == seq![','],
            out@ == seq!['{'] + members_text(e.pairs().take(i as int)),
        decreases n - i,
    {
        if i > 0 {
            out.append(",");
        }
        out.append("\"");
        out.append(e.fields[i].name.as_str());
        out.append("\"");
        out.append(":");
        out.append("\"");
        out.append(e.fields[i].value.as_str());
        out.append("\"");
        proof {
            let pairs = e.pairs();
            assert(pairs[i as int] == (e.fields@[i as int].name@, e.fields@[i as int].value@));
            assert(pairs.take(i + 1) =~= pairs.take(i as int).push(pairs[i as int]));
            if i > 0 {
                lemma_members_text_push(pairs.take(i as int), pairs[i as int]);
                assert(out@ =~= seq!['{'] + members_text(pairs.take(i + 1)));
            } else {
                assert(pairs.take(1) =~= seq![pairs[0]]);
                assert(members_text(seq![pairs[0]]) == member_text(pairs[0]));
                assert(out@ =~= seq!['{'] + members_text(pairs.take(i + 1)));
            }
        }
        i += 1;
    }
    out.append("}");
    proof {
        assert(e.pairs().take(n as int) =~= e.pairs());
        assert(out@ =~= object_text(e.pairs()));
    }
    out
}

/// The length of the longest unescaped-safe prefix.
pub open spec fn plain_prefix_len(s: Seq<char>) -> int
    decreases s.len(),
{
    if s.len() > 0 && json_plain_char(s[0]) {
        1 + plain_prefix_len(s.drop_first())
    } else {
        0
    }
}

/// Parses a quoted string at the front: the content and the remainder.
pub open spec fn parse_quoted(s: Seq<char>) -> Option<(Seq<char>, Seq<char>)> {
    if s.len() > 0 && s[0] == '"' {
        let t = s.drop_first();
        let n = plain_prefix_len(t);
        if n < t.len() && t[n] == '"' {
            Some((t.take(n), t.skip(n + 1)))
        } else {
            None
        }
    } else {
        None
    }
}

/// Parses one `"name":"value"` member at the front.
pub open spec fn parse_member(s: Seq<char>) -> Option<(JsonPair, Seq<char>)> {
    match parse_quoted(s) {
        Option::None => None,
        Option::Some((name, r1)) => if r1.len() > 0 && r1[0] == ':' {
            match parse_quoted(r1.drop_first()) {
                Option::None => None,
                Option::Some((value, r2)) => Some(((name, value), r2)),
            }
        } else {
            None
        },
    }
}

/// Parses a non-empty, comma-separated member list at the front.
pub open spec fn parse_members(s: Seq<char>) -> Option<(Seq<JsonPair>, Seq<char>)>
    decreases s.len(),
{
    match parse_member(s) {
        Option::None => None,
        Option::Some((f, r)) => if r.len() > 0 && r[0] == ',' && r.len() < s.len() {
            match parse_members(r.drop_first()) {
                Option::None => None,
                Option::Some((fs, r2)) => Some((seq![f] + fs, r2)),
            }
        } else if r.len() > 0 && r[0] == ',' {
            // A member never parses without consuming input, so this arm
            // is never reached; it only keeps the recursion well-founded.
            None
        } else {
            Some((seq![f], r))
        },
    }
}

/// Finishes an object whose opening brace and `done` members are behind:
/// the members still in `u` must run to a lone closing brace.
pub open spec fn parse_object_tail(u: Seq<char>, done: Seq<JsonPair>) -> Option<Seq<JsonPair>> {
    match parse_members(u) {
        Option::None => None,
        Option::Some((fs, r)) => if r.len() == 1 && r[0] == '}' {
            Some(done + fs)
        } else {
            None
        },
    }
}

/// Parses a whole flat object, `{}` included; `None` on anything else.
pub open spec fn parse_object(s: Seq<char>) -> Option<Seq<JsonPair>> {
    if s.len() > 0 && s[0] == '{' {
        let t = s.drop_first();
        if t.len() == 1 && t[0] == '}' {
            Some(Seq::empty())
        } else {
            parse_object_tail(t, Seq::empty())
        }
    } else {
        None
    }
}

/// A plain string followed by a non-plain character scans exactly to the
/// boundary.
proof fn lemma_plain_prefix_of_concat(p: Seq<char>, q: Seq<char>)
    requires
        json_plain(p),
        q.len() > 0,
        !json_plain_char(q[0]),
    ensures
        plain_prefix_len(p + q) == p.len(),
    decreases p.len(),
{
    if p.len() == 0 {
        assert(p + q =~= q);
    } else {
        assert((p + q)[0] == p[0]);
        assert((p + q).drop_first() =~= p.drop_first() + q);
        assert(json_plain(p.drop_first()));
        lemma_plain_prefix_of_concat(p.drop_first(), q);
    }
}

/// Parsing a quoted plain string recovers content and remainder exactly.
proof fn lemma_parse_quoted_exact(c: Seq<char>, rest: Seq<char>)
    requires
        json_plain(c),
    ensures
        parse_quoted(quoted(c) + rest) == Some((c, rest)),
{
    let s = quoted(c) + rest;
    assert(s[0] == '"');
    let t = s.drop_first();
    assert(t =~= c + (seq!['"'] + rest));
    assert(!json_plain_char('"'));
    lemma_plain_prefix_of_concat(c, seq!['"'] + rest);
    let n = plain_prefix_len(t);
    assert(n == c.len());
    assert(t[n] == '"');
    assert(t.take(n) =~= c);
    assert(t.skip(n + 1) =~= rest);
}

/// Parsing a serialized member recovers the pair and remainder exactly.
proof fn lemma_parse_member_exact(f: JsonPair, rest: Seq<char>)
    requires
        json_plain(f.0),
        json_plain(f.1),
    ensures
        parse_member(member_text(f) + rest) == Some((f, rest)),
{
    let s = member_text(f) + rest;
    assert(s =~= quoted(f.0) + (seq![':'] + quoted(f.1) + rest));
    lemma_parse_quoted_exact(f.0, seq![':'] + quoted(f.1) + rest);
    let r1 = seq![':'] + quoted(f.1) + rest;
    assert(r1[0] == ':');
    assert(r1.drop_first() =~= quoted(f.1) + rest);
    lemma_parse_quoted_exact(f.1, rest);
}

/// Parsing a serialized member list, up to a closing brace, recovers the
/// list and remainder exactly.
proof fn lemma_parse_members_exact(fs: Seq<JsonPair>, rest: Seq<char>)
    requires
        fs.len() >= 1,
        pairs_plain(fs),
        rest.len() > 0,
        rest[0] == '}',
    ensures
        parse_members(members_text(fs) + rest) == Some((fs, rest)),
    decreases fs.len(),
{
    let s = members_text(fs) + rest;
    if fs.len() == 1 {
        assert(members_text(fs) == member_text(fs[0]));
        lemma_parse_member_exact(fs[0], rest);
        assert(parse_member(s) == Some((fs[0], rest)));
        assert(seq![fs[0]] =~= fs);
    } else {
        assert(members_text(fs) == member_text(fs[0]) + seq![','] + members_text(fs.drop_first()));
        let tail_text = seq![','] + members_text(fs.drop_first()) + rest;
        assert(s =~= member_text(fs[0]) + tail_text);
        lemma_parse_member_exact(fs[0], tail_text);
        assert(parse_member(s) == Some((fs[0], tail_text)));
        assert(tail_text[0] == ',');
        assert(member_text(fs[0]).len() >= 5);
        assert(tail_text.len() < s.len());
        assert(tail_text.drop_first() =~= members_text(fs.drop_first()) + rest);
        assert(pairs_plain(fs.drop_first()));
        lemma_parse_members_exact(fs.drop_first(), rest);
        assert(seq![fs[0]] + fs.drop_first() =~= fs);
    }
}

/// A non-empty member list serializes to a text of several characters,
/// so it is never mistaken for an empty object's body.
proof fn lemma_members_text_min_len(fs: Seq<JsonPair>)
    requires
        fs.len() >= 1,
    ensures
        members_text(fs).len() >= 5,
    decreases fs.len(),
{
    if fs.len() == 1 {
    } else {
        lemma_members_text_min_len(fs.drop_first());
    }
}

/// Round trip: parsing a serialized object recovers the field list
/// exactly, for every well-formed field list.
pub proof fn lemma_round_trip(fs: Seq<JsonPair>)
    requires
        pairs_plain(fs),
    ensures
        parse_object(object_text(fs)) == Some(fs),
{
    let s = object_text(fs);
    assert(s[0] == '{');
    let t = s.drop_first();
    assert(t =~= members_text(fs) + seq!['}']);
    if fs.len() == 0 {
        assert(members_text(fs) == Seq::<char>::empty());
        assert(t =~= seq!['}']);
        assert(parse_object(s) == Some(Seq::<JsonPair>::empty()));
        assert(fs =~= Seq::<JsonPair>::empty());
    } else {
        lemma_members_text_min_len(fs);
        assert(!(t.len() == 1));
        lemma_parse_members_exact(fs, seq!['}']);
        assert(parse_members(t) == Some((fs, seq!['}'])));
        assert(Seq::<JsonPair>::empty() + fs =~= fs);
    }
}

/// The index just past the longest run of unescaped-safe characters
/// starting at `from`.
fn scan_plain(s: &str, from: usize, n: usize) -> (j: usize)
    requires
        n == s@.len(),
        from <= n,
    ensures
        from <= j <= n,
        forall|k: int| from <= k < j ==> json_plain_char(#[trigger] s@[k]),
        j < n ==> !json_plain_char(s@[j as int]),
        j - from == plain_prefix_len(s@.skip(from as int)),
{
    let mut j = from;
    while j < n
        invariant
            from <= j <= n,
            n == s@.len(),
            forall|k: int| from <= k < j ==> json_plain_char(#[trigger] s@[k]),
            plain_prefix_len(s@.skip(from as int)) == j - from + plain_prefix_len(
                s@.skip(j as int),
            ),
        decreases n - j,
    {
        let c = s.get_char(j);
        proof {
            assert(s@.skip(j as int)[0] == s@[j as int]);
        }
        if !is_json_plain_char(c) {
            return j;
        }
        proof {
            assert(s@.skip(j as int).drop_first() =~= s@.skip(j + 1));
        }
        j += 1;
    }
    proof {
        assert(s@.skip(j as int) =~= Seq::<char>::empty());
    }
    j
}

/// Reads a quoted string of unescaped-safe characters starting at `i`.
/// The result agrees exactly with `parse_quoted` on the remaining input:
/// on success the characters `i..j` are that quoted string, and on
/// failure `parse_quoted` fails too.
fn parse_quoted_at(s: &str, i: usize, n: usize) -> (r: Option<(String, usize)>)
    requires
        n == s@.len(),
        i <= n,
    ensures
        r matches Some(p) ==> i < p.1 <= n && s@.subrange(i as int, p.1 as int) == quoted(p.0@)
            && json_plain(p.0@) && parse_quoted(s@.skip(i as int)) == Some(
            (p.0@, s@.skip(p.1 as int)),
        ),
        r is None ==> parse_quoted(s@.skip(i as int)) is None,
{
    let ghost u = s@.skip(i as int);
    if i >= n {
        proof {
            assert(u.len() == 0);
        }
        return None;
    }
    proof {
        assert(u[0] == s@[i as int]);
    }
    if s.get_char(i) != '"' {
        return None;
    }
    let start = i + 1;
    proof {
        assert(u.drop_first() =~= s@.skip(start as int));
    }
    let ghost t = u.drop_first();
    let j = scan_plain(s, start, n);
    proof {
        assert(plain_prefix_len(t) == j - start);
    }
    if j >= n {
        proof {
            assert(t.len() == n - start);
        }
        return None;
    }
    proof {
        assert(t[j - start] == s@[j as int]);
    }
    if s.get_char(j) != '"' {
        return None;
    }
    let content = s.substring_char(start, j).to_owned();
    proof {
        assert(s@.subrange(i as int, j + 1) =~= quoted(content@));
        assert(t.take(j - start) =~= content@);
        assert(t.skip(j - start + 1) =~= s@.skip(j + 1));
    }
    Some((content, j + 1))
}

/// Parses a flat JSON object of quoted, unescaped-safe members, in
/// exact agreement with `parse_object`.  On success the result is a
/// well-formed entity whose serialization is exactly the input, so
/// `from_json` inverts `to_json`; on failure no well-formed entity
/// serializes to the input.
#[verifier::rlimit(50)]
pub fn from_json(s: &str) -> (r: Option<Entity>)
    ensures
        r matches Some(ent) ==> ent.wf() && s@ == object_text(ent.pairs()) && parse_object(s@)
            == Some(ent.pairs()),
        r is None ==> parse_object(s@) is None,
{
    let n = s.unicode_len();
    if n < 2 {
        proof {
            if n == 1 && s@[0] == '{' {
                let t = s@.drop_first();
                assert(t.len() == 0);
                assert(parse_quoted(t) is None);
                assert(parse_members(t) is None);
                assert(parse_object(s@) is None);
            }
        }
        return None;
    }
    if s.get_char(0) != '{' {
        return None;
    }
    if n == 2 {
        let ghost t = s@.drop_first();
        proof {
            assert(t =~= seq![s@[1]]);
        }
        if s.get_char(1) == '}' {
            let ent = Entity { fields: Vec::new() };
            proof {
                assert(ent.pairs() =~= Seq::<JsonPair>::empty());
                assert(s@ =~= object_text(ent.pairs()));
                assert(parse_object(s@) == Some(ent.pairs()));
            }
            return Some(ent);
        } else {
            proof {
                if t[0] == '"' {
                    assert(t.drop_first() =~= Seq::<char>::empty());
                    assert(plain_prefix_len(t.drop_first()) == 0);
                }
                assert(parse_quoted(t) is None);
                assert(parse_members(t) is None);
                assert(parse_object(s@) is None);
            }
            return None;
        }
    }
    let mut fields: Vec<Field> = Vec::new();
    let mut i: usize = 1;
    proof {
        assert(s@.drop_first() =~= s@.skip(1));
        assert(fields@.map_values(|f: Field| (f.name@, f.value@)) =~= Seq::<JsonPair>::empty());
    }
    loop
        invariant
            n == s@.len(),
            n > 2,
            1 <= i <= n,
            s@[0] == '{',
            forall|k: int|
                0 <= k < fields@.len() ==> json_plain(#[trigger] fields@[k].name@) && json_plain(
                    fields@[k].value@,
                ),
            fields@.len() == 0 ==> i == 1,
            fields@.len() >= 1 ==> s@.subrange(0, i as int) =~= seq!['{'] + members_text(
                fields@.map_values(|f: Field| (f.name@, f.value@)),
            ) + seq![','],
            parse_object(s@) == parse_object_tail(
                s@.skip(i as int),
                fields@.map_values(|f: Field| (f.name@, f.value@)),
            ),
        decreases n - i,
    {
        let ghost u = s@.skip(i as int);
        let ghost cur = fields@.map_values(|f: Field| (f.name@, f.value@));
        let name_parse = parse_quoted_at(s, i, n);
        let (name, j1) = match name_parse {
            Option::None => {
                proof {
                    assert(parse_members(u) is None);
                }
                return None;
            },
            Option::Some(p) => p,
        };
        if j1 >= n {
            proof {
                assert(s@.skip(j1 as int).len() == 0);
                assert(parse_members(u) is None);
            }
            return None;
        }
        proof {
            assert(s@.skip(j1 as int)[0] == s@[j1 as int]);
            assert(s@.skip(j1 as int).drop_first() =~= s@.skip(j1 + 1));
        }
        if s.get_char(j1) != ':' {
            proof {
                assert(parse_members(u) is None);
            }
            return None;
        }
        let value_parse = parse_quoted_at(s, j1 + 1, n);
        let (value, j2) = match value_parse {
            Option::None => {
                proof {
                    assert(parse_members(u) is None);
                }
                return None;
            },
            Option::Some(p) => p,
        };
        let ghost old_pairs = fields@.map_values(|f: Field| (f.name@, f.value@));
        let ghost pair = (name@, value@);
        fields.push(Field { name, value });
        let ghost new_pairs = fields@.map_values(|f: Field| (f.name@, f.value@));
        proof {
            assert(new_pairs =~= old_pairs.push(pair));
            assert(parse_member(u) == Some((pair, s@.skip(j2 as int))));
            assert(s@.subrange(0, j2 as int) =~= s@.subrange(0, i as int) + s@.subrange(
                i as int,
                j1 as int,
            ) + s@.subrange(j1 as int, j1 + 1) + s@.subrange(j1 + 1, j2 as int));
            assert(s@.subrange(j1 as int, j1 + 1) =~= seq![':']);
            if old_pairs.len() == 0 {
                assert(members_text(seq![pair]) == member_text(pair));
                assert(new_pairs =~= seq![pair]);
                assert(s@.subrange(0, j2 as int) =~= seq!['{'] + members_text(new_pairs));
            } else {
                lemma_members_text_push(old_pairs, pair);
                assert(s@.subrange(0, j2 as int) =~= seq!['{'] + members_text(new_pairs));
            }
        }
        if j2 >= n {
            proof {
                let r = s@.skip(j2 as int);
                assert(r.len() == 0);
                assert(parse_members(u) == Some((seq![pair], r)));
                assert(parse_object(s@) is None);
            }
            return None;
        }
        let ghost r = s@.skip(j2 as int);
        proof {
            assert(r[0] == s@[j2 as int]);
        }
        let c = s.get_char(j2);
        if c == ',' {
            proof {
                assert(s@.subrange(0, j2 + 1) =~= s@.subrange(0, j2 as int) + seq![s@[j2 as int]]);
                assert(r.len() < u.len());
                assert(r.drop_first() =~= s@.skip(j2 + 1));
                let v = s@.skip(j2 + 1);
                if parse_members(v) is None {
                    assert(parse_members(u) is None);
                    assert(parse_object_tail(v, new_pairs) is None);
                } else {
                    let fsr = parse_members(v)->0;
                    assert(parse_members(u) == Some((seq![pair] + fsr.0, fsr.1)));
                    assert(cur + (seq![pair] + fsr.0) =~= new_pairs + fsr.0);
                    assert(parse_object_tail(u, cur) == parse_object_tail(v, new_pairs));
                }
            }
            i = j2 + 1;
        } else if c == '}' {
            proof {
                assert(parse_members(u) == Some((seq![pair], r)));
            }
            if j2 + 1 == n {
                let ent = Entity { fields };
                proof {
                    assert(r =~= seq![s@[j2 as int]]);
                    assert(ent.pairs() =~= new_pairs);
                    assert(ent.wf());
                    assert(s@ =~= s@.subrange(0, j2 as int) + seq![s@[j2 as int]]);
                    assert(s@ =~= object_text(ent.pairs()));
                    assert(cur + seq![pair] =~= new_pairs);
                    assert(parse_object(s@) == Some(ent.pairs()));
                }
                return Some(ent);
            } else {
                proof {
                    assert(r.len() > 1);
                    assert(parse_object(s@) is None);
                }
                return None;
            }
        } else {
            proof {
                assert(parse_members(u) == Some((seq![pair], r)));
                assert(parse_object(s@) is None);
            }
            return None;
        }
    }
}

/// Serialization is injective on well-formed field lists: equal bodies
/// carry equal fields.
pub proof fn lemma_serialization_injective(f1: Seq<JsonPair>, f2: Seq<JsonPair>)
    requires
        pairs_plain(f1),
        pairs_plain(f2),
        object_text(f1) == object_text(f2),
    ensures
        f1 == f2,
{
    lemma_round_trip(f1);
    lemma_round_trip(f2);
}

} // verus!
