//! JSON handling for the new interface: building request envelopes with
//! exact escaping, and trusted access to a JSON parser for reading the
//! response envelopes.

use crate::mac::hex_digit_char;
use vstd::prelude::*;
use vstd::string::*;

verus! {

#[verifier::external_type_specification]
#[verifier::external_body]
pub struct ExValue(serde_json::Value);

/// JSON string escaping of one character, as the standard compact writer
/// does it: quote and backslash get a backslash, the named controls their
/// two-character escapes, other controls a `\u00..` escape with lower-case
/// digits; everything else stays as it is.
pub open spec fn json_escape_char(c: char) -> Seq<char> {
    if c == '"' {
        seq!['\\', '"']
    } else if c == '\\' {
        seq!['\\', '\\']
    } else if c as u32 == 8 {
        seq!['\\', 'b']
    } else if c as u32 == 9 {
        seq!['\\', 't']
    } else if c as u32 == 10 {
        seq!['\\', 'n']
    } else if c as u32 == 12 {
        seq!['\\', 'f']
    } else if c as u32 == 13 {
        seq!['\\', 'r']
    } else if (c as u32) < 32 {
        seq![
            '\\',
            'u',
            '0',
            '0',
            hex_digit_char((c as u32 / 16) as u8),
            hex_digit_char((c as u32 % 16) as u8),
        ]
    } else {
        seq![c]
    }
}

/// JSON string escaping of a whole text, character by character.
pub open spec fn spec_json_escape(s: Seq<char>) -> Seq<char>
    decreases s.len(),
{
    if s.len() == 0 {
        Seq::empty()
    } else {
        json_escape_char(s[0]) + spec_json_escape(s.subrange(1, s.len() as int))
    }
}

/// Escaping a text one character longer appends that character's escape.
pub proof fn lemma_json_escape_snoc(s: Seq<char>, c: char)
    ensures
        spec_json_escape(s.push(c)) == spec_json_escape(s) + json_escape_char(c),
    decreases s.len(),
{
    if s.len() == 0 {
        let t = s.push(c);
        assert(t.len() == 1 && t[0] == c);
        assert(t.subrange(1, 1) =~= Seq::<char>::empty());
        assert(spec_json_escape(Seq::<char>::empty()) == Seq::<char>::empty());
        assert(spec_json_escape(t) == json_escape_char(c) + spec_json_escape(t.subrange(1, 1)));
        assert(spec_json_escape(t) =~= json_escape_char(c));
        assert(spec_json_escape(s) + json_escape_char(c) =~= json_escape_char(c));
    } else {
        let t = s.push(c);
        assert(t.subrange(1, t.len() as int) =~= s.subrange(1, s.len() as int).push(c));
        lemma_json_escape_snoc(s.subrange(1, s.len() as int), c);
        assert(spec_json_escape(t) =~= spec_json_escape(s) + json_escape_char(c));
    }
}

/// The lower-case hexadecimal digit for a value below sixteen.
fn lower_hex_char(n: u8) -> (r: char)
    requires
        n < 16,
    ensures
        r == hex_digit_char(n),
{
    if n < 10 {
        (n + 48) as char
    } else {
        (n + 87) as char
    }
}

/// Escapes a text for inclusion in a JSON string literal.
pub fn json_escape(s: &str) -> (r: String)
    ensures
        r@ == spec_json_escape(s@),
{
    let n = s.unicode_len();
    let mut out = String::new();
    let mut i: usize = 0;
    proof {
        assert(s@.subrange(0, 0) =~= Seq::<char>::empty());
    }
    while i < n
        invariant
            i <= n,
            n == s@.len(),
            out@ == spec_json_escape(s@.subrange(0, i as int)),
        decreases n - i,
    {
        let ghost pre = s@.subrange(0, i as int);
        let c = s.get_char(i);
        let u = c as u32;
        if c == '"' {
            out.push('\\');
            out.push('"');
        } else if c == '\\' {
            out.push('\\');
            out.push('\\');
        } else if u == 8 {
            out.push('\\');
            out.push('b');
        } else if u == 9 {
            out.push('\\');
            out.push('t');
        } else if u == 10 {
            out.push('\\');
            out.push('n');
        } else if u == 12 {
            out.push('\\');
            out.push('f');
        } else if u == 13 {
            out.push('\\');
            out.push('r');
        } else if u < 32 {
            out.push('\\');
            out.push('u');
            out.push('0');
            out.push('0');
            out.push(lower_hex_char((u / 16) as u8));
            out.push(lower_hex_char((u % 16) as u8));
        } else {
            out.push(c);
        }
        proof {
            assert(s@.subrange(0, i + 1) =~= pre.push(c));
            lemma_json_escape_snoc(pre, c);
            assert(out@ =~= spec_json_escape(pre) + json_escape_char(c));
        }
        i = i + 1;
    }
    proof {
        assert(s@.subrange(0, n as int) =~= s@);
    }
    out
}

/// The document the JSON parser reads from a text, a function of the text
/// alone; nothing when the text is not valid JSON.
pub uninterp spec fn spec_json_parse(s: Seq<char>) -> Option<serde_json::Value>;

/// Whether a JSON value is an object.
pub uninterp spec fn spec_json_is_object(v: serde_json::Value) -> bool;

/// The member of a JSON object under a key; nothing where the key is absent
/// or the value is no object.
pub uninterp spec fn spec_json_get(v: serde_json::Value, key: Seq<char>) -> Option<
    serde_json::Value,
>;

/// Whether a JSON value is null.
pub uninterp spec fn spec_json_is_null(v: serde_json::Value) -> bool;

/// The elements of a JSON array, in order; nothing on any other value.
pub uninterp spec fn spec_json_as_array(v: serde_json::Value) -> Option<Seq<serde_json::Value>>;

/// The text of a JSON string; nothing on any other value.
pub uninterp spec fn spec_json_as_str(v: serde_json::Value) -> Option<Seq<char>>;

/// Relies on `serde_json::from_str::<Value>`: `Some` exactly on valid JSON
/// text, carrying the parsed document, a function of the text alone.
#[verifier::external_body]
pub fn json_parse(s: &str) -> (r: Option<serde_json::Value>)
    ensures
        r == spec_json_parse(s@),
{
    serde_json::from_str(s).ok()
}

/// Relies on `serde_json::Value::is_object`: whether the document is a JSON
/// object.
#[verifier::external_body]
pub fn json_is_object(v: &serde_json::Value) -> (r: bool)
    ensures
        r == spec_json_is_object(*v),
{
    v.is_object()
}

/// Relies on `serde_json::Value::get`: member lookup on a JSON object,
/// `None` where the key is absent or the value is no object.
#[verifier::external_body]
pub fn json_get<'a>(v: &'a serde_json::Value, key: &str) -> (r: Option<&'a serde_json::Value>)
    ensures
        match r {
            Some(m) => spec_json_get(*v, key@) == Some(*m),
            None => spec_json_get(*v, key@) is None,
        },
{
    v.get(key)
}

/// Relies on `serde_json::Value::is_null`: whether the value is JSON null.
#[verifier::external_body]
pub fn json_is_null(v: &serde_json::Value) -> (r: bool)
    ensures
        r == spec_json_is_null(*v),
{
    v.is_null()
}

/// Relies on `serde_json::Value::as_array`: the elements of a JSON array,
/// `None` on any other value.
#[verifier::external_body]
pub fn json_as_array<'a>(v: &'a serde_json::Value) -> (r: Option<&'a Vec<serde_json::Value>>)
    ensures
        match r {
            Some(a) => spec_json_as_array(*v) == Some(a@),
            None => spec_json_as_array(*v) is None,
        },
{
    v.as_array()
}

/// Relies on `serde_json::Value::as_str`: the text of a JSON string,
/// `None` on any other value.
#[verifier::external_body]
pub fn json_as_str<'a>(v: &'a serde_json::Value) -> (r: Option<&'a str>)
    ensures
        match r {
            Some(t) => spec_json_as_str(*v) == Some(t@),
            None => spec_json_as_str(*v) is None,
        },
{
    v.as_str()
}

} // verus!
