//! The entity model: the domain object a lookup returns, reduced to what
//! the response mapper needs — a flat list of named string attributes,
//! serializable as one JSON object with one member per attribute.

use vstd::prelude::*;

verus! {

/// A character that may stand unescaped inside a JSON string literal:
/// not a quote, not a backslash, not a control character.
pub open spec fn json_plain_char(c: char) -> bool {
    c != '"' && c != '\\' && c as u32 >= 32
}

/// A string of unescaped-safe characters.
pub open spec fn json_plain(s: Seq<char>) -> bool {
    forall|i: int| 0 <= i < s.len() ==> json_plain_char(#[trigger] s[i])
}

/// One named attribute of an entity.
pub struct Field {
    /// The attribute's name.
    pub name: String,
    /// The attribute's value.
    pub value: String,
}

/// The domain object returned by a successful lookup: an ordered list of
/// named attributes.
pub struct Entity {
    /// The attributes, in serialization order.
    pub fields: Vec<Field>,
}

impl Entity {
    /// The invariant a serializable entity satisfies: every attribute
    /// name and value consists of unescaped-safe characters.
    pub open spec fn wf(&self) -> bool {
        forall|i: int|
            0 <= i < self.fields@.len() ==> json_plain(#[trigger] self.fields@[i].name@)
                && json_plain(self.fields@[i].value@)
    }

    /// The attributes as name/value pairs of character sequences.
    pub open spec fn pairs(&self) -> Seq<(Seq<char>, Seq<char>)> {
        self.fields@.map_values(|f: Field| (f.name@, f.value@))
    }
}

/// Whether every pair consists of unescaped-safe strings.
pub open spec fn pairs_plain(fs: Seq<(Seq<char>, Seq<char>)>) -> bool {
    forall|i: int| 0 <= i < fs.len() ==> json_plain(#[trigger] fs[i].0) && json_plain(fs[i].1)
}

/// A well-formed entity's pairs are unescaped-safe.
pub proof fn lemma_wf_entity_pairs_plain(e: &Entity)
    requires
        e.wf(),
    ensures
        pairs_plain(e.pairs()),
{
    assert forall|i: int| 0 <= i < e.pairs().len() implies json_plain(#[trigger] e.pairs()[i].0)
        && json_plain(e.pairs()[i].1) by {
        assert(e.pairs()[i] == (e.fields@[i].name@, e.fields@[i].value@));
    }
}

/// Whether one character may stand unescaped in a JSON string literal.
pub fn is_json_plain_char(c: char) -> (r: bool)
    ensures
        r == json_plain_char(c),
{
    c != '"' && c != '\\' && c as u32 >= 32
}

} // verus!
