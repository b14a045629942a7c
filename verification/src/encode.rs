//! Query-string and form encodings used when talking to the legacy
//! interface, together with the exact statements of what the encoding
//! crates produce.

use vstd::prelude::*;

verus! {

/// Every character of `s` is ASCII.
pub open spec fn all_ascii(s: Seq<char>) -> bool {
    forall|i: int| #![trigger s[i]] 0 <= i < s.len() ==> (s[i] as u32) < 128
}

/// The upper-case hexadecimal digit for a value below sixteen.
pub open spec fn upper_hex_digit(n: u8) -> char {
    if n < 10 {
        ((n + '0' as u32 as u8) as u8) as char
    } else {
        ((n - 10 + 'A' as u32 as u8) as u8) as char
    }
}

/// The three-character percent escape of one byte.
pub open spec fn percent_escape_byte(b: u8) -> Seq<char> {
    seq!['%', upper_hex_digit(b / 16), upper_hex_digit(b % 16)]
}

/// The percent escapes of a run of bytes, in order.
pub open spec fn percent_escape_bytes(bs: Seq<u8>) -> Seq<char>
    decreases bs.len(),
{
    if bs.len() == 0 {
        Seq::empty()
    } else {
        percent_escape_byte(bs[0]) + percent_escape_bytes(bs.subrange(1, bs.len() as int))
    }
}

/// The three-character percent escape of an ASCII character.
pub open spec fn percent_escape(c: char) -> Seq<char> {
    percent_escape_byte((c as u32 % 256) as u8)
}

/// Characters a URL query value keeps as they are: ASCII alphanumerics and
/// `-`, `.`, `_`, `~`.
pub open spec fn is_url_unreserved(c: char) -> bool {
    ('0' as u32 <= c as u32 && c as u32 <= '9' as u32) || ('A' as u32 <= c as u32 && c as u32
        <= 'Z' as u32) || ('a' as u32 <= c as u32 && c as u32 <= 'z' as u32) || c == '-' || c == '.'
        || c == '_' || c == '~'
}

/// Percent-encoding of one ASCII character: unreserved characters stay,
/// everything else becomes a percent escape.
pub open spec fn percent_encode_char(c: char) -> Seq<char> {
    if is_url_unreserved(c) {
        seq![c]
    } else {
        percent_escape(c)
    }
}

/// Percent-encoding of an ASCII text, character by character.
pub open spec fn spec_percent_encode(s: Seq<char>) -> Seq<char>
    decreases s.len(),
{
    if s.len() == 0 {
        Seq::empty()
    } else {
        percent_encode_char(s[0]) + spec_percent_encode(s.subrange(1, s.len() as int))
    }
}

/// Relies on `urlencoding::encode`: percent-encodes every byte except ASCII
/// alphanumerics and `-`, `.`, `_`, `~`, writing upper-case hexadecimal
/// digits. On ASCII input each byte is one character.
#[verifier::external_body]
pub fn percent_encode(s: &str) -> (r: String)
    requires
        all_ascii(s@),
    ensures
        r@ == spec_percent_encode(s@),
{
    urlencoding::encode(s).into_owned()
}

/// ASCII characters the legacy form encoding escapes: the controls
/// including delete, space, `"`, `<`, `>`, backtick, `&`, `?` and `=`.
pub open spec fn is_form_escaped(c: char) -> bool {
    (c as u32) < 32 || c as u32 == 127 || c == ' ' || c == '"' || c == '<' || c == '>' || c == '`'
        || c == '&' || c == '?' || c == '='
}

/// Form encoding of one character: a non-ASCII character becomes the
/// percent escapes of its UTF-8 bytes, an escaped ASCII character its own
/// escape, everything else stays.
pub open spec fn form_encode_char(c: char) -> Seq<char> {
    if (c as u32) >= 128 {
        percent_escape_bytes(vstd::utf8::encode_scalar(c as u32))
    } else if is_form_escaped(c) {
        percent_escape(c)
    } else {
        seq![c]
    }
}

/// Form encoding of one key or value, character by character.
pub open spec fn spec_form_value(s: Seq<char>) -> Seq<char>
    decreases s.len(),
{
    if s.len() == 0 {
        Seq::empty()
    } else {
        form_encode_char(s[0]) + spec_form_value(s.subrange(1, s.len() as int))
    }
}

/// One encoded `key=value` pair.
pub open spec fn spec_form_pair(p: (Seq<char>, Seq<char>)) -> Seq<char> {
    spec_form_value(p.0) + seq!['='] + spec_form_value(p.1)
}

/// The encoded pairs after the first, each preceded by `&`.
pub open spec fn spec_form_encode_rest(ps: Seq<(Seq<char>, Seq<char>)>) -> Seq<char>
    decreases ps.len(),
{
    if ps.len() == 0 {
        Seq::empty()
    } else {
        seq!['&'] + spec_form_pair(ps[0]) + spec_form_encode_rest(ps.subrange(1, ps.len() as int))
    }
}

/// The whole encoded form: `k=v` pairs joined by `&`.
pub open spec fn spec_form_encode(ps: Seq<(Seq<char>, Seq<char>)>) -> Seq<char> {
    if ps.len() == 0 {
        Seq::empty()
    } else {
        spec_form_pair(ps[0]) + spec_form_encode_rest(ps.subrange(1, ps.len() as int))
    }
}

/// The views of a sequence of string pairs.
pub open spec fn pairs_views(ps: Seq<(String, String)>) -> Seq<(Seq<char>, Seq<char>)> {
    ps.map_values(|p: (String, String)| (p.0@, p.1@))
}

/// Relies on `qstring::QString::new` and its rendering: writes the pairs as
/// `key=value` joined by `&`, percent-encoding the ASCII controls and
/// delete, space, `"`, `<`, `>`, backtick, `&`, `?`, `=`, and every byte of
/// a non-ASCII character's UTF-8 encoding, all with upper-case hexadecimal
/// digits; every other character passes through.
#[verifier::external_body]
pub fn form_urlencode(pairs: &Vec<(String, String)>) -> (r: String)
    ensures
        r@ == spec_form_encode(pairs_views(pairs@)),
{
    let refs: Vec<(&str, &str)> = pairs.iter().map(|p| (p.0.as_str(), p.1.as_str())).collect();
    qstring::QString::new(refs).to_string()
}

} // verus!
