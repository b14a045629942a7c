//! Six-byte hardware addresses, parsed from and rendered to the canonical
//! colon-separated hexadecimal form used by both router interfaces.

use vstd::prelude::*;
use vstd::string::*;

verus! {

/// Whether `c` is a hexadecimal digit in either case.
pub open spec fn is_hex_digit(c: char) -> bool {
    ('0' as u32 <= c as u32 && c as u32 <= '9' as u32) || ('a' as u32 <= c as u32 && c as u32
        <= 'f' as u32) || ('A' as u32 <= c as u32 && c as u32 <= 'F' as u32)
}

/// Numeric value of a hexadecimal digit (zero on other characters).
pub open spec fn hex_char_val(c: char) -> u8 {
    if '0' as u32 <= c as u32 && c as u32 <= '9' as u32 {
        (c as u32 - '0' as u32) as u8
    } else if 'a' as u32 <= c as u32 && c as u32 <= 'f' as u32 {
        (c as u32 - 'a' as u32 + 10) as u8
    } else if 'A' as u32 <= c as u32 && c as u32 <= 'F' as u32 {
        (c as u32 - 'A' as u32 + 10) as u8
    } else {
        0
    }
}

/// The lower-case hexadecimal digit for a value below sixteen.
pub open spec fn hex_digit_char(n: u8) -> char {
    if n < 10 {
        ((n + '0' as u32 as u8) as u8) as char
    } else {
        ((n - 10 + 'a' as u32 as u8) as u8) as char
    }
}

/// Both characters of the `p`-th colon-separated group are hexadecimal digits.
pub open spec fn pair_ok(s: Seq<char>, p: int) -> bool {
    is_hex_digit(s[3 * p]) && is_hex_digit(s[3 * p + 1])
}

/// The byte encoded by the `p`-th colon-separated group.
pub open spec fn mac_byte_at(s: Seq<char>, p: int) -> u8 {
    (hex_char_val(s[3 * p]) as int * 16 + hex_char_val(s[3 * p + 1]) as int) as u8
}

/// The six bytes of a canonical colon-separated hardware address, or `None`
/// where the text is not one: seventeen characters, colons at every third
/// position, hexadecimal digits of either case elsewhere.
pub open spec fn spec_parse_mac(s: Seq<char>) -> Option<Seq<u8>> {
    if s.len() == 17 && s[2] == ':' && s[5] == ':' && s[8] == ':' && s[11] == ':' && s[14] == ':'
        && (forall|p: int| 0 <= p < 6 ==> #[trigger] pair_ok(s, p)) {
        Some(Seq::new(6, |p: int| mac_byte_at(s, p)))
    } else {
        None
    }
}

/// The canonical text of six bytes: lower-case hexadecimal pairs joined by
/// colons.
pub open spec fn spec_format_mac(m: Seq<u8>) -> Seq<char> {
    Seq::new(
        17,
        |i: int|
            if i % 3 == 2 {
                ':'
            } else if i % 3 == 0 {
                hex_digit_char(m[i / 3] / 16)
            } else {
                hex_digit_char(m[i / 3] % 16)
            },
    )
}

/// A six-byte hardware address. The invariant of exactly six octets is
/// carried by the fixed-size array itself.
#[derive(Clone, Copy, Debug)]
pub struct MacAddress {
    pub bytes: [u8; 6],
}

impl View for MacAddress {
    type V = Seq<u8>;

    open spec fn view(&self) -> Seq<u8> {
        self.bytes@
    }
}

/// Numeric value of a hexadecimal digit of either case.
fn hex_val(c: char) -> (r: Option<u8>)
    ensures
        r is Some <==> is_hex_digit(c),
        r is Some ==> r->0 == hex_char_val(c),
{
    let u = c as u32;
    if 48 <= u && u <= 57 {
        Some((u - 48) as u8)
    } else if 97 <= u && u <= 102 {
        Some((u - 87) as u8)
    } else if 65 <= u && u <= 70 {
        Some((u - 55) as u8)
    } else {
        None
    }
}

/// The byte written as two hexadecimal digits at positions `i`, `i + 1`.
fn hex_pair(s: &str, i: usize) -> (r: Option<u8>)
    requires
        i + 2 <= s@.len(),
        s@.len() <= usize::MAX,
    ensures
        r is Some <==> is_hex_digit(s@[i as int]) && is_hex_digit(s@[i + 1]),
        r is Some ==> r->0 == (hex_char_val(s@[i as int]) as int * 16 + hex_char_val(
            s@[i + 1],
        ) as int) as u8,
{
    let c1 = s.get_char(i);
    let c2 = s.get_char(i + 1);
    match (hex_val(c1), hex_val(c2)) {
        (Some(v1), Some(v2)) => Some(v1 * 16 + v2),
        _ => None,
    }
}

/// Appends the two lower-case hexadecimal digits of `b`.
fn push_hex_byte(out: &mut String, b: u8)
    ensures
        final(out)@ == old(out)@ + seq![hex_digit_char(b / 16), hex_digit_char(b % 16)],
{
    let hi = b / 16;
    let lo = b % 16;
    let hc: char = if hi < 10 {
        (hi + 48) as char
    } else {
        (hi + 87) as char
    };
    let lc: char = if lo < 10 {
        (lo + 48) as char
    } else {
        (lo + 87) as char
    };
    out.push(hc);
    out.push(lc);
    proof {
        assert(final(out)@ =~= old(out)@ + seq![hex_digit_char(b / 16), hex_digit_char(b % 16)]);
    }
}

impl MacAddress {
    /// Reads a hardware address from its canonical colon-separated text.
    pub fn parse(s: &str) -> (r: Option<MacAddress>)
        ensures
            match r {
                Some(m) => spec_parse_mac(s@) == Some(m@),
                None => spec_parse_mac(s@) is None,
            },
    {
        let n = s.unicode_len();
        if n != 17 {
            return None;
        }
        if !(s.get_char(2) == ':' && s.get_char(5) == ':' && s.get_char(8) == ':' && s.get_char(11)
            == ':' && s.get_char(14) == ':') {
            return None;
        }
        let b0 = match hex_pair(s, 0) {
            Some(b) => b,
            None => {
                proof {
                    assert(!pair_ok(s@, 0));
                }
                return None;
            },
        };
        let b1 = match hex_pair(s, 3) {
            Some(b) => b,
            None => {
                proof {
                    assert(!pair_ok(s@, 1));
                }
                return None;
            },
        };
        let b2 = match hex_pair(s, 6) {
            Some(b) => b,
            None => {
                proof {
                    assert(!pair_ok(s@, 2));
                }
                return None;
            },
        };
        let b3 = match hex_pair(s, 9) {
            Some(b) => b,
            None => {
                proof {
                    assert(!pair_ok(s@, 3));
                }
                return None;
            },
        };
        let b4 = match hex_pair(s, 12) {
            Some(b) => b,
            None => {
                proof {
                    assert(!pair_ok(s@, 4));
                }
                return None;
            },
        };
        let b5 = match hex_pair(s, 15) {
            Some(b) => b,
            None => {
                proof {
                    assert(!pair_ok(s@, 5));
                }
                return None;
            },
        };
        let m = MacAddress { bytes: [b0, b1, b2, b3, b4, b5] };
        proof {
            assert forall|p: int| 0 <= p < 6 implies #[trigger] pair_ok(s@, p) by {
                if p == 0 {
                    assert(pair_ok(s@, 0));
                } else if p == 1 {
                    assert(pair_ok(s@, 1));
                } else if p == 2 {
                    assert(pair_ok(s@, 2));
                } else if p == 3 {
                    assert(pair_ok(s@, 3));
                } else if p == 4 {
                    assert(pair_ok(s@, 4));
                } else {
                    assert(pair_ok(s@, 5));
                }
            }
            assert(m@ =~= Seq::new(6, |p: int| mac_byte_at(s@, p)));
        }
        Some(m)
    }

    /// Writes the address in its canonical form: lower-case hexadecimal
    /// pairs joined by colons.
    pub fn canonical_string(&self) -> (r: String)
        ensures
            r@ == spec_format_mac(self@),
    {
        let mut out = String::new();
        push_hex_byte(&mut out, self.bytes[0]);
        out.push(':');
        push_hex_byte(&mut out, self.bytes[1]);
        out.push(':');
        push_hex_byte(&mut out, self.bytes[2]);
        out.push(':');
        push_hex_byte(&mut out, self.bytes[3]);
        out.push(':');
        push_hex_byte(&mut out, self.bytes[4]);
        out.push(':');
        push_hex_byte(&mut out, self.bytes[5]);
        proof {
            assert(out@ =~= spec_format_mac(self@));
        }
        out
    }
}

/// Writing six bytes in canonical form and reading the text back yields the
/// same six bytes.
pub proof fn lemma_format_then_parse(m: Seq<u8>)
    requires
        m.len() == 6,
    ensures
        spec_parse_mac(spec_format_mac(m)) == Some(m),
{
    let s = spec_format_mac(m);
    assert forall|p: int| 0 <= p < 6 implies #[trigger] pair_ok(s, p) by {
        assert(s[3 * p] == hex_digit_char(m[p] / 16));
        assert(s[3 * p + 1] == hex_digit_char(m[p] % 16));
    }
    assert forall|p: int| 0 <= p < 6 implies Seq::new(6, |q: int| mac_byte_at(s, q))[p] == m[p] by {
        assert(s[3 * p] == hex_digit_char(m[p] / 16));
        assert(s[3 * p + 1] == hex_digit_char(m[p] % 16));
        assert(hex_char_val(hex_digit_char(m[p] / 16)) == m[p] / 16);
        assert(hex_char_val(hex_digit_char(m[p] % 16)) == m[p] % 16);
    }
    assert(Seq::new(6, |q: int| mac_byte_at(s, q)) =~= m);
}

/// The character-wise lower-casing of a canonical address text: hexadecimal
/// digits in upper case become lower case, everything else stays.
pub open spec fn to_lower_hex(s: Seq<char>) -> Seq<char> {
    Seq::new(
        s.len(),
        |i: int|
            if 'A' as u32 <= s[i] as u32 && s[i] as u32 <= 'F' as u32 {
                ((s[i] as u32 + 32) as u8) as char
            } else {
                s[i]
            },
    )
}

/// Reading any accepted address text and writing it back yields that text
/// with its digits lowered: the canonical form.
pub proof fn lemma_parse_then_format(s: Seq<char>)
    requires
        spec_parse_mac(s) is Some,
    ensures
        spec_format_mac(spec_parse_mac(s)->0) == to_lower_hex(s),
{
    let m = spec_parse_mac(s)->0;
    let t = spec_format_mac(m);
    assert forall|i: int| 0 <= i < 17 implies t[i] == to_lower_hex(s)[i] by {
        let p = i / 3;
        assert(pair_ok(s, p));
        assert(m[p] == mac_byte_at(s, p));
        let v1 = hex_char_val(s[3 * p]);
        let v2 = hex_char_val(s[3 * p + 1]);
        assert(v1 < 16 && v2 < 16);
        assert(m[p] / 16 == v1 && m[p] % 16 == v2) by {
            assert(m[p] == v1 as int * 16 + v2 as int);
        }
        if i % 3 == 2 {
            assert(s[i] == ':');
            assert(!('A' as u32 <= ':' as u32 && ':' as u32 <= 'F' as u32));
        } else if i % 3 == 0 {
            assert(3 * p == i);
            assert(t[i] == hex_digit_char(v1));
            lemma_hex_lower(s[i]);
        } else {
            assert(3 * p + 1 == i);
            assert(t[i] == hex_digit_char(v2));
            lemma_hex_lower(s[i]);
        }
    }
    assert(t =~= to_lower_hex(s));
}

/// Rendering the value of a hexadecimal digit gives the digit itself, in
/// lower case.
proof fn lemma_hex_lower(c: char)
    requires
        is_hex_digit(c),
    ensures
        hex_digit_char(hex_char_val(c)) == (if 'A' as u32 <= c as u32 && c as u32 <= 'F' as u32 {
            ((c as u32 + 32) as u8) as char
        } else {
            c
        }),
{
    if '0' as u32 <= c as u32 && c as u32 <= '9' as u32 {
        assert(hex_char_val(c) < 10);
    } else if 'a' as u32 <= c as u32 && c as u32 <= 'f' as u32 {
        assert(hex_char_val(c) >= 10);
    } else {
        assert(hex_char_val(c) >= 10);
    }
}

} // verus!
