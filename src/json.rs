//! A JSON document as the descriptor and status decoders read it.
use vstd::prelude::*;

use crate::error::DecodeError;

verus! {

/// A JSON number: its decimal text, and its value where it is a
/// non-negative integer that fits in 64 bits.
#[derive(Debug)]
pub struct JsonNumber {
    pub text: String,
    pub unsigned: Option<u64>,
}

/// A JSON value; an object keeps its members in the order it is given
/// them, and a member lookup takes the first with the key.
#[derive(Debug)]
pub enum Json {
    Null,
    Bool(bool),
    Number(JsonNumber),
    Str(String),
    Array(Vec<Json>),
    Object(Vec<(String, Json)>),
}

/// The pretty-printed form of a JSON text, where it parses.
pub uninterp spec fn pretty_of(text: Seq<char>) -> Option<Seq<char>>;

/// The member named `key` among `es`; the first one counts.
pub open spec fn member(es: Seq<(String, Json)>, key: Seq<char>) -> Option<Json>
    decreases es.len(),
{
    if es.len() == 0 {
        None
    } else if es[0].0@ == key {
        Some(es[0].1)
    } else {
        member(es.drop_first(), key)
    }
}

/// The member named `key` of an object; `None` where `j` is no object or
/// has no such member.
pub open spec fn field_of(j: Json, key: Seq<char>) -> Option<Json> {
    match j {
        Json::Object(es) => member(es@, key),
        _ => None,
    }
}

/// A JSON value read as a `u32`: a non-negative integer of at most 32 bits.
pub open spec fn json_u32(j: Json) -> Option<u32> {
    match j {
        Json::Number(n) => match n.unsigned {
            Some(u) => if u <= u32::MAX {
                Some(u as u32)
            } else {
                None
            },
            None => None,
        },
        _ => None,
    }
}

/// A JSON value read as a string.
pub open spec fn json_str(j: Json) -> Option<Seq<char>> {
    match j {
        Json::Str(s) => Some(s@),
        _ => None,
    }
}

/// A JSON value read as a number, by its decimal text.
pub open spec fn json_number(j: Json) -> Option<Seq<char>> {
    match j {
        Json::Number(n) => Some(n.text@),
        _ => None,
    }
}

/// The longest text that is pretty-printed for a schema error. The JSON
/// parser keeps a number's decimal exponent in an `i16` and counts it down
/// once per fraction digit, so a longer text could overflow it.
pub const PRETTY_LIMIT: usize = 32000;

/// Relies on `json::parse` and `JsonValue::pretty(2)`: the text laid out
/// with an indent of two, where it parses as JSON.
#[verifier::external_body]
fn pretty_json(text: &str) -> (r: Option<String>)
    requires
        text@.len() <= PRETTY_LIMIT,
    ensures
        match r {
            Some(p) => pretty_of(text@) == Some(p@),
            None => pretty_of(text@) is None,
        },
{
    json::parse(text).ok().map(|j| j.pretty(2))
}

/// The error for a JSON text whose shape is not the expected one; it
/// carries the text pretty-printed where that is possible and the text is
/// no longer than `PRETTY_LIMIT` characters.
pub fn schema_error(text: &str) -> (r: DecodeError)
    ensures
        text@.len() > PRETTY_LIMIT ==> r == DecodeError::Schema(None),
        text@.len() <= PRETTY_LIMIT ==> match r {
            DecodeError::Schema(Some(p)) => pretty_of(text@) == Some(p@),
            DecodeError::Schema(None) => pretty_of(text@) is None,
            _ => false,
        },
{
    if text.unicode_len() > PRETTY_LIMIT {
        DecodeError::Schema(None)
    } else {
        DecodeError::Schema(pretty_json(text))
    }
}

/// Whether two texts are equal.
pub fn text_eq(a: &str, b: &str) -> (r: bool)
    ensures
        r == (a@ == b@),
{
    let n = a.unicode_len();
    if n != b.unicode_len() {
        return false;
    }
    let mut i: usize = 0;
    while i < n
        invariant
            n == a@.len(),
            n == b@.len(),
            i <= n,
            forall|k: int| 0 <= k < i ==> a@[k] == b@[k],
        decreases n - i,
    {
        if a.get_char(i) != b.get_char(i) {
            return false;
        }
        i = i + 1;
    }
    assert(a@ =~= b@);
    true
}

impl Json {
    /// The member named `key`, where this is an object that has one.
    pub fn field(&self, key: &str) -> (r: Option<&Json>)
        ensures
            match r {
                Some(v) => field_of(*self, key@) == Some(*v),
                None => field_of(*self, key@) is None,
            },
    {
        match self {
            Json::Object(es) => {
                let ghost s = es@;
                let mut i: usize = 0;
                assert(s.subrange(0, s.len() as int) =~= s);
                while i < es.len()
                    invariant
                        s == es@,
                        field_of(*self, key@) == member(s, key@),
                        i <= s.len(),
                        member(s, key@) == member(s.subrange(i as int, s.len() as int), key@),
                    decreases s.len() - i,
                {
                    let ghost t = s.subrange(i as int, s.len() as int);
                    assert(t.drop_first() =~= s.subrange(i + 1, s.len() as int));
                    assert(t[0] == s[i as int]);
                    if text_eq(es[i].0.as_str(), key) {
                        return Some(&es[i].1);
                    }
                    i = i + 1;
                }
                None
            },
            _ => None,
        }
    }

    /// This value read as a `u32`.
    pub fn as_u32(&self) -> (r: Option<u32>)
        ensures
            r == json_u32(*self),
    {
        match self {
            Json::Number(n) => match n.unsigned {
                Some(u) => if u <= 0xffff_ffff {
                    Some(u as u32)
                } else {
                    None
                },
                None => None,
            },
            _ => None,
        }
    }

    /// This value read as a string.
    pub fn as_text(&self) -> (r: Option<String>)
        ensures
            match r {
                Some(s) => json_str(*self) == Some(s@),
                None => json_str(*self) is None,
            },
    {
        match self {
            Json::Str(s) => Some(s.clone()),
            _ => None,
        }
    }

    /// This value read as a number, by its decimal text.
    pub fn as_number_text(&self) -> (r: Option<String>)
        ensures
            match r {
                Some(s) => json_number(*self) == Some(s@),
                None => json_number(*self) is None,
            },
    {
        match self {
            Json::Number(n) => Some(n.text.clone()),
            _ => None,
        }
    }
}

} // verus!
