//! Character-level text helpers shared by both protocol variants: locating a
//! separator, splitting a body into lines, substring search, and building
//! strings one character at a time.

use vstd::prelude::*;
use vstd::string::*;

verus! {

/// Relies on `String::push` of std: appends exactly the one character.
pub assume_specification[ String::push ](s: &mut String, c: char)
    ensures
        final(s)@ == old(s)@.push(c),
;

/// Index of the first occurrence of `c` in `s` at or after `from`,
/// or `s.len()` if there is none.
pub open spec fn spec_find(s: Seq<char>, c: char, from: int) -> int
    decreases s.len() - from,
{
    if from < 0 || from >= s.len() {
        s.len() as int
    } else if s[from] == c {
        from
    } else {
        spec_find(s, c, from + 1)
    }
}

pub proof fn lemma_find_bounds(s: Seq<char>, c: char, from: int)
    requires
        0 <= from <= s.len(),
    ensures
        from <= spec_find(s, c, from) <= s.len(),
        spec_find(s, c, from) < s.len() ==> s[spec_find(s, c, from)] == c,
        forall|j: int| from <= j < spec_find(s, c, from) ==> s[j] != c,
    decreases s.len() - from,
{
    if from < s.len() && s[from] != c {
        lemma_find_bounds(s, c, from + 1);
    }
}

pub proof fn lemma_find_is(s: Seq<char>, c: char, from: int, i: int)
    requires
        0 <= from <= i <= s.len(),
        forall|j: int| from <= j < i ==> s[j] != c,
        i < s.len() ==> s[i] == c,
    ensures
        spec_find(s, c, from) == i,
    decreases i - from,
{
    if from < i {
        lemma_find_is(s, c, from + 1, i);
    }
}

/// First occurrence of `c` in `s` at or after `from`, or the character length
/// of `s` if there is none.
pub fn find_char(s: &str, c: char, from: usize) -> (r: usize)
    requires
        from <= s@.len(),
    ensures
        r == spec_find(s@, c, from as int),
{
    let n = s.unicode_len();
    let mut i = from;
    while i < n
        invariant
            from <= i <= n,
            n == s@.len(),
            forall|j: int| from <= j < i ==> s@[j] != c,
        decreases n - i,
    {
        if s.get_char(i) == c {
            proof {
                lemma_find_is(s@, c, from as int, i as int);
            }
            return i;
        }
        i = i + 1;
    }
    proof {
        lemma_find_is(s@, c, from as int, n as int);
    }
    n
}

/// A segment that ended at a newline, with one trailing carriage return
/// removed: the router's line-oriented bodies may arrive with either line
/// ending.
pub open spec fn strip_cr(l: Seq<char>) -> Seq<char> {
    if l.len() > 0 && l[l.len() - 1] == '\r' {
        l.subrange(0, l.len() - 1)
    } else {
        l
    }
}

/// The lines of `s`: segments between newline characters. A carriage return
/// is removed only where a newline followed it; a final segment without a
/// newline keeps its characters, and a final empty segment after a trailing
/// newline is not produced.
pub open spec fn spec_lines(s: Seq<char>) -> Seq<Seq<char>>
    decreases s.len(),
{
    if s.len() == 0 {
        Seq::empty()
    } else {
        let i = spec_find(s, '\n', 0);
        if i < 0 || i >= s.len() {
            seq![s]
        } else {
            seq![strip_cr(s.subrange(0, i))] + spec_lines(s.subrange(i + 1, s.len() as int))
        }
    }
}

/// One step of `spec_lines`: peeling the first line off a non-empty text.
pub proof fn lemma_lines_step(s: Seq<char>, i: int)
    requires
        s.len() > 0,
        i == spec_find(s, '\n', 0),
        i < s.len(),
    ensures
        spec_lines(s) == seq![strip_cr(s.subrange(0, i))] + spec_lines(
            s.subrange(i + 1, s.len() as int),
        ),
{
    lemma_find_bounds(s, '\n', 0);
}

/// Splits a body into its lines.
pub fn split_lines(s: &str) -> (r: Vec<String>)
    ensures
        r.deep_view() == spec_lines(s@),
{
    let n = s.unicode_len();
    let mut r: Vec<String> = Vec::new();
    let mut pos: usize = 0;
    proof {
        assert(s@.subrange(0, n as int) =~= s@);
        assert(r.deep_view() =~= Seq::<Seq<char>>::empty());
    }
    while pos < n
        invariant
            pos <= n,
            n == s@.len(),
            r.deep_view() + spec_lines(s@.subrange(pos as int, n as int)) =~= spec_lines(s@),
        decreases n - pos,
    {
        let ghost rest = s@.subrange(pos as int, n as int);
        let ghost r0 = r.deep_view();
        let i = find_char(s, '\n', pos);
        proof {
            lemma_find_bounds(s@, '\n', pos as int);
            assert forall|j: int| 0 <= j < i - pos implies rest[j] != '\n' by {
                assert(rest[j] == s@[pos + j]);
            }
            if i < n {
                assert(rest[i - pos] == s@[i as int]);
            }
            lemma_find_is(rest, '\n', 0, i - pos);
        }
        let ghost line_seq = rest.subrange(0, i - pos);
        let mut end = i;
        if i < n && end > pos && s.get_char(end - 1) == '\r' {
            end = end - 1;
            proof {
                assert(line_seq[line_seq.len() - 1] == s@[i - 1]);
                assert(strip_cr(line_seq) =~= s@.subrange(pos as int, end as int));
            }
        } else {
            proof {
                if i < n {
                    if line_seq.len() > 0 {
                        assert(line_seq[line_seq.len() - 1] == s@[i - 1]);
                    }
                    assert(strip_cr(line_seq) =~= s@.subrange(pos as int, end as int));
                } else {
                    assert(rest =~= s@.subrange(pos as int, end as int));
                }
            }
        }
        let line = s.substring_char(pos, end).to_owned();
        r.push(line);
        proof {
            if i < n {
                assert(r.deep_view() =~= r0 + seq![strip_cr(line_seq)]);
            } else {
                assert(r.deep_view() =~= r0 + seq![rest]);
            }
        }
        if i < n {
            proof {
                lemma_lines_step(rest, i - pos);
                assert(rest.subrange(i - pos + 1, rest.len() as int) =~= s@.subrange(
                    i + 1,
                    n as int,
                ));
                assert(r.deep_view() + spec_lines(s@.subrange(i + 1, n as int)) =~= r0
                    + spec_lines(rest));
            }
            pos = i + 1;
        } else {
            proof {
                assert(spec_lines(rest) == seq![rest]);
                assert(spec_lines(s@.subrange(n as int, n as int)) =~= Seq::<Seq<char>>::empty());
                assert(r.deep_view() + spec_lines(s@.subrange(n as int, n as int)) =~= r0
                    + spec_lines(rest));
            }
            pos = n;
        }
    }
    proof {
        assert(spec_lines(s@.subrange(pos as int, n as int)) =~= Seq::<Seq<char>>::empty());
        assert(r.deep_view() =~= r.deep_view() + Seq::<Seq<char>>::empty());
    }
    r
}

/// Whether `needle` occurs as a contiguous run of characters inside `hay`.
pub open spec fn spec_contains(hay: Seq<char>, needle: Seq<char>) -> bool {
    exists|i: int|
        0 <= i <= hay.len() - needle.len() && #[trigger] hay.subrange(i, i + needle.len() as int)
            =~= needle
}

/// Substring search; the old interface signals a failed wake-up only through
/// such a marker in the response body.
pub fn str_contains(hay: &str, needle: &str) -> (r: bool)
    ensures
        r == spec_contains(hay@, needle@),
{
    let n = hay.unicode_len();
    let m = needle.unicode_len();
    if m > n {
        proof {
            assert(!spec_contains(hay@, needle@));
        }
        return false;
    }
    let mut i: usize = 0;
    while i <= n - m
        invariant
            m <= n,
            n == hay@.len(),
            m == needle@.len(),
            i <= n - m + 1,
            forall|k: int|
                0 <= k < i ==> !(#[trigger] hay@.subrange(k, k + needle@.len() as int)
                    =~= needle@),
        decreases n + 1 - i,
    {
        let mut j: usize = 0;
        let mut hit = true;
        while j < m
            invariant
                i + m <= n,
                n == hay@.len(),
                m == needle@.len(),
                j <= m,
                hit <==> (forall|t: int| 0 <= t < j ==> hay@[i + t] == needle@[t]),
            decreases m - j,
        {
            if hay.get_char(i + j) != needle.get_char(j) {
                hit = false;
                j = m;
            } else {
                proof {
                    assert(hay@[i + j] == needle@[j as int]);
                }
                j = j + 1;
            }
        }
        if hit {
            proof {
                assert(hay@.subrange(i as int, i + needle@.len() as int) =~= needle@);
            }
            return true;
        }
        proof {
            assert(exists|t: int| 0 <= t < m && hay@[i + t] != needle@[t]);
            let t = choose|t: int| 0 <= t < m && hay@[i + t] != needle@[t];
            assert(hay@.subrange(i as int, i + needle@.len() as int)[t] != needle@[t]);
            assert(!(hay@.subrange(i as int, i + needle@.len() as int) =~= needle@));
        }
        i = i + 1;
    }
    proof {
        assert forall|k: int| 0 <= k <= hay@.len() - needle@.len() implies !(
        #[trigger] hay@.subrange(k, k + needle@.len() as int) =~= needle@) by {
            assert(k < i);
        }
    }
    false
}

} // verus!
