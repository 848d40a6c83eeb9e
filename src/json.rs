//! Reading JSON texts with serde_json: each reader takes a JSON text and yields plain values,
//! nested values as their own JSON texts.
use vstd::prelude::*;
use crate::text::digit_char;

verus! {

/// The members of a JSON object text, each value as JSON text, names in ascending order.
pub uninterp spec fn json_members(text: Seq<char>) -> Option<Seq<(Seq<char>, Seq<char>)>>;

/// The items of a JSON array text, each as JSON text.
pub uninterp spec fn json_items(text: Seq<char>) -> Option<Seq<Seq<char>>>;

/// The value of a JSON string text.
pub uninterp spec fn json_string(text: Seq<char>) -> Option<Seq<char>>;

/// The value of a JSON text that is a string or null.
pub uninterp spec fn json_opt_string(text: Seq<char>) -> Option<Option<Seq<char>>>;

/// The value of a JSON text that is an array of strings or null.
pub uninterp spec fn json_opt_strings(text: Seq<char>) -> Option<Option<Seq<Seq<char>>>>;

/// The value of a JSON text that is an unsigned integer that fits 64 bits.
pub uninterp spec fn json_u64(text: Seq<char>) -> Option<u64>;

/// How serde_json writes one character inside a JSON string: `"` and `\` behind a
/// backslash, the control characters with a short escape where JSON has one, the other
/// control characters as `\u00` and two lowercase hex digits, every other character as is.
pub open spec fn escaped_char(c: char) -> Seq<char> {
    if c == '"' {
        seq!['\\', '"']
    } else if c == '\\' {
        seq!['\\', '\\']
    } else if c == '\n' {
        seq!['\\', 'n']
    } else if c == '\r' {
        seq!['\\', 'r']
    } else if c == '\t' {
        seq!['\\', 't']
    } else if c == '\u{8}' {
        seq!['\\', 'b']
    } else if c == '\u{c}' {
        seq!['\\', 'f']
    } else if (c as u32) < 0x20 {
        seq!['\\', 'u', '0', '0', digit_char(((c as u32) / 16) as nat), digit_char(((c as u32) % 16) as nat)]
    } else {
        seq![c]
    }
}

/// The characters of `s`, each written as `escaped_char` writes it.
pub open spec fn escaped(s: Seq<char>) -> Seq<char>
    decreases s.len(),
{
    if s.len() == 0 {
        Seq::empty()
    } else {
        escaped(s.drop_last()) + escaped_char(s.last())
    }
}

/// The JSON text of a string: the string in quotes, escaped.
pub open spec fn json_quoted(s: Seq<char>) -> Seq<char> {
    seq!['"'] + escaped(s) + seq!['"']
}

pub open spec fn strings_view(v: Seq<String>) -> Seq<Seq<char>> {
    v.map_values(|s: String| s@)
}

pub open spec fn members_view(v: Seq<(String, String)>) -> Seq<(Seq<char>, Seq<char>)> {
    v.map_values(|m: (String, String)| (m.0@, m.1@))
}

/// Relies on serde_json::from_str into a BTreeMap of Values: an object's members, each value
/// written back with Value's Display.
#[verifier::external_body]
pub(crate) fn read_members(text: &str) -> (r: Option<Vec<(String, String)>>)
    ensures
        match r {
            Some(v) => json_members(text@) == Some(members_view(v@)),
            None => json_members(text@) is None,
        },
{
    let m: std::collections::BTreeMap<String, serde_json::Value> = serde_json::from_str(text).ok()?;
    Some(m.into_iter().map(|(k, v)| (k, v.to_string())).collect())
}

/// Relies on serde_json::from_str into a Vec of Values: an array's items, each written back
/// with Value's Display.
#[verifier::external_body]
pub(crate) fn read_items(text: &str) -> (r: Option<Vec<String>>)
    ensures
        match r {
            Some(v) => json_items(text@) == Some(strings_view(v@)),
            None => json_items(text@) is None,
        },
{
    let items: Vec<serde_json::Value> = serde_json::from_str(text).ok()?;
    Some(items.into_iter().map(|v| v.to_string()).collect())
}

/// Relies on serde_json::from_str into a String.
#[verifier::external_body]
pub(crate) fn read_string(text: &str) -> (r: Option<String>)
    ensures
        match r {
            Some(s) => json_string(text@) == Some(s@),
            None => json_string(text@) is None,
        },
{
    serde_json::from_str::<String>(text).ok()
}

/// Relies on serde_json::from_str into an Option<String>.
#[verifier::external_body]
pub(crate) fn read_opt_string(text: &str) -> (r: Option<Option<String>>)
    ensures
        match r {
            Some(Some(s)) => json_opt_string(text@) == Some(Some(s@)),
            Some(None) => json_opt_string(text@) == Some(None::<Seq<char>>),
            None => json_opt_string(text@) is None,
        },
{
    serde_json::from_str::<Option<String>>(text).ok()
}

/// Relies on serde_json::from_str into an Option<Vec<String>>.
#[verifier::external_body]
pub(crate) fn read_opt_strings(text: &str) -> (r: Option<Option<Vec<String>>>)
    ensures
        match r {
            Some(Some(v)) => json_opt_strings(text@) == Some(Some(strings_view(v@))),
            Some(None) => json_opt_strings(text@) == Some(None::<Seq<Seq<char>>>),
            None => json_opt_strings(text@) is None,
        },
{
    serde_json::from_str::<Option<Vec<String>>>(text).ok()
}

/// Relies on serde_json::from_str into a u64.
#[verifier::external_body]
pub(crate) fn read_u64(text: &str) -> (r: Option<u64>)
    ensures
        r == json_u64(text@),
{
    serde_json::from_str::<u64>(text).ok()
}

/// Relies on serde_json's Display of Value::String: the string in quotes, each character
/// escaped by serde_json's escape table (`escaped_char`).
#[verifier::external_body]
pub(crate) fn quote(s: &str) -> (r: String)
    ensures
        r@ == json_quoted(s@),
{
    serde_json::Value::String(s.to_string()).to_string()
}

/// The value text of the first member named `key`.
pub open spec fn member(ms: Seq<(Seq<char>, Seq<char>)>, key: Seq<char>) -> Option<Seq<char>>
    decreases ms.len(),
{
    if ms.len() == 0 {
        None
    } else if ms[0].0 == key {
        Some(ms[0].1)
    } else {
        member(ms.skip(1), key)
    }
}

pub fn same_text(a: &String, b: &str) -> (r: bool)
    ensures
        r == (a@ == b@),
{
    let x = crate::text::chars_of(a.as_str());
    let y = crate::text::chars_of(b);
    if x.len() != y.len() {
        return false;
    }
    let mut i: usize = 0;
    while i < x.len()
        invariant
            x@ == a@,
            y@ == b@,
            x@.len() == y@.len(),
            i <= x@.len(),
            forall|k: int| 0 <= k < i ==> x@[k] == y@[k],
        decreases x@.len() - i,
    {
        if x[i] != y[i] {
            return false;
        }
        i = i + 1;
    }
    proof {
        assert(x@ =~= y@);
    }
    true
}

/// The value text of the first member of `ms` named `key`.
pub fn find_member(ms: &Vec<(String, String)>, key: &str) -> (r: Option<String>)
    ensures
        match member(members_view(ms@), key@) {
            Some(t) => r matches Some(s) && s@ == t,
            None => r is None,
        },
{
    let ghost mv = members_view(ms@);
    let mut i: usize = 0;
    proof {
        assert(mv.skip(0) =~= mv);
    }
    while i < ms.len()
        invariant
            mv == members_view(ms@),
            i <= ms@.len(),
            member(mv, key@) == member(mv.skip(i as int), key@),
        decreases ms@.len() - i,
    {
        if same_text(&ms[i].0, key) {
            proof {
                assert(mv.skip(i as int)[0] == mv[i as int]);
            }
            return Some(ms[i].1.clone());
        }
        proof {
            assert(mv.skip(i as int)[0] == mv[i as int]);
            assert(mv.skip(i as int).skip(1) =~= mv.skip(i + 1));
        }
        i = i + 1;
    }
    None
}

} // verus!
