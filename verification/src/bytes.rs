//! Byte-string primitives shared by the request parser and the response writer:
//! equality, search, placeholder substitution and decimal rendering.

use vstd::prelude::*;
use vstd::string::StringSliceAdditionalSpecFns;

verus! {

/// ASCII space, the separator of the three request-line fields.
pub const SP: u8 = 0x20;

/// ASCII carriage return.
pub const CR: u8 = 0x0d;

/// ASCII line feed.
pub const LF: u8 = 0x0a;

/// ASCII slash, the prefix that separates a request target from its token.
pub const SLASH: u8 = 0x2f;

/// The bytes of a piece of text, as they travel on the wire.
pub open spec fn text(s: &str) -> Seq<u8> {
    s.spec_bytes()
}

/// The two-byte line terminator `\r\n`.
pub open spec fn crlf() -> Seq<u8> {
    seq![CR, LF]
}

/// `pat` occurs in `text` starting at index `i`.
pub open spec fn occurs_at(text: Seq<u8>, pat: Seq<u8>, i: int) -> bool {
    &&& 0 <= i
    &&& i + pat.len() <= text.len()
    &&& text.subrange(i, i + pat.len()) =~= pat
}

/// Index of the leftmost occurrence of `pat` in `text`, if it occurs at all.
pub open spec fn first_match(text: Seq<u8>, pat: Seq<u8>) -> Option<int>
    decreases text.len(),
{
    if occurs_at(text, pat, 0) {
        Some(0)
    } else if text.len() == 0 {
        None
    } else {
        match first_match(text.drop_first(), pat) {
            Some(i) => Some(i + 1),
            None => None,
        }
    }
}

/// `text` with every occurrence of `pat` replaced by `with`, found left to right
/// and never overlapping. An empty `pat` occurs nowhere.
pub open spec fn replace_all(text: Seq<u8>, pat: Seq<u8>, with: Seq<u8>) -> Seq<u8>
    decreases text.len(),
{
    if pat.len() == 0 || text.len() == 0 {
        text
    } else if occurs_at(text, pat, 0) {
        with + replace_all(text.subrange(pat.len() as int, text.len() as int), pat, with)
    } else {
        seq![text[0]] + replace_all(text.drop_first(), pat, with)
    }
}

/// The ASCII digit for `d`, where `d < 10`.
pub open spec fn digit(d: nat) -> u8 {
    (0x30 + d) as u8
}

/// `n` written in decimal, most significant digit first, without padding.
pub open spec fn decimal(n: nat) -> Seq<u8>
    decreases n,
{
    if n < 10 {
        seq![digit(n)]
    } else {
        decimal(n / 10).push(digit(n % 10))
    }
}

/// An occurrence in the tail of `text` is an occurrence one place further in `text`.
pub proof fn lemma_occurs_shift(text: Seq<u8>, pat: Seq<u8>, j: int)
    requires
        text.len() > 0,
        0 <= j,
    ensures
        occurs_at(text, pat, j + 1) == occurs_at(text.drop_first(), pat, j),
{
    if j + 1 + pat.len() <= text.len() {
        assert(text.drop_first().subrange(j, j + pat.len()) =~= text.subrange(
            j + 1,
            j + 1 + pat.len(),
        ));
    }
}

/// What `first_match` returns is the least index at which `pat` occurs, and it
/// returns `None` only when `pat` occurs nowhere.
pub proof fn lemma_first_match(text: Seq<u8>, pat: Seq<u8>)
    ensures
        match first_match(text, pat) {
            Some(i) => occurs_at(text, pat, i) && forall|j: int|
                0 <= j < i ==> !occurs_at(text, pat, j),
            None => forall|j: int| !occurs_at(text, pat, j),
        },
    decreases text.len(),
{
    if occurs_at(text, pat, 0) {
    } else if text.len() == 0 {
    } else {
        let tail = text.drop_first();
        lemma_first_match(tail, pat);
        assert forall|j: int| 0 <= j implies occurs_at(text, pat, j + 1) == occurs_at(
            tail,
            pat,
            j,
        ) by {
            lemma_occurs_shift(text, pat, j);
        }
        match first_match(tail, pat) {
            Some(i) => {
                assert forall|j: int| 0 <= j < i + 1 implies !occurs_at(text, pat, j) by {
                    if j > 0 {
                        lemma_occurs_shift(text, pat, j - 1);
                    }
                }
            },
            None => {
                assert forall|j: int| !occurs_at(text, pat, j) by {
                    if j > 0 {
                        lemma_occurs_shift(text, pat, j - 1);
                    }
                }
            },
        }
    }
}

/// The least index at which `pat` occurs is what `first_match` returns.
pub proof fn lemma_first_match_is(text: Seq<u8>, pat: Seq<u8>, i: int)
    requires
        occurs_at(text, pat, i),
        forall|j: int| 0 <= j < i ==> !occurs_at(text, pat, j),
    ensures
        first_match(text, pat) == Some(i),
{
    lemma_first_match(text, pat);
}

/// Where `pat` occurs nowhere, `first_match` finds nothing.
pub proof fn lemma_first_match_none(text: Seq<u8>, pat: Seq<u8>)
    requires
        forall|j: int| 0 <= j && j + pat.len() <= text.len() ==> !occurs_at(text, pat, j),
    ensures
        first_match(text, pat) is None,
{
    lemma_first_match(text, pat);
}

/// Appends the bytes of `s` to `out`.
pub fn append(out: &mut Vec<u8>, s: &[u8])
    ensures
        final(out)@ == old(out)@ + s@,
{
    out.extend_from_slice(s);
    assert(final(out)@ =~= old(out)@ + s@);
}

/// The line terminator as bytes.
pub fn line_end() -> (t: Vec<u8>)
    ensures
        t@ == crlf(),
{
    let mut t: Vec<u8> = Vec::new();
    t.push(CR);
    t.push(LF);
    assert(t@ =~= crlf());
    t
}

/// Whether two byte strings are equal.
pub fn same(a: &[u8], b: &[u8]) -> (r: bool)
    ensures
        r == (a@ == b@),
{
    if a.len() != b.len() {
        return false;
    }
    let mut i: usize = 0;
    while i < a.len()
        invariant
            a.len() == b.len(),
            i <= a.len(),
            a@.subrange(0, i as int) == b@.subrange(0, i as int),
        decreases a.len() - i,
    {
        if a[i] != b[i] {
            assert(a@[i as int] != b@[i as int]);
            return false;
        }
        assert(a@.subrange(0, i + 1) == a@.subrange(0, i as int).push(a@[i as int]));
        assert(b@.subrange(0, i + 1) == b@.subrange(0, i as int).push(b@[i as int]));
        i += 1;
    }
    assert(a@ == a@.subrange(0, a.len() as int));
    assert(b@ == b@.subrange(0, b.len() as int));
    true
}

/// Whether the byte `b` occurs in `s`.
pub fn contains_byte(s: &[u8], b: u8) -> (r: bool)
    ensures
        r == s@.contains(b),
{
    let mut i: usize = 0;
    while i < s.len()
        invariant
            i <= s.len(),
            forall|j: int| 0 <= j < i ==> s@[j] != b,
        decreases s.len() - i,
    {
        if s[i] == b {
            assert(s@[i as int] == b);
            return true;
        }
        i += 1;
    }
    false
}

/// Whether `pat` occurs in `text` at index `i`.
pub fn matches_at(text: &[u8], pat: &[u8], i: usize) -> (r: bool)
    requires
        i + pat.len() <= text.len(),
    ensures
        r == occurs_at(text@, pat@, i as int),
{
    same(&text[i..i + pat.len()], pat)
}

/// Finds the leftmost occurrence of `pat` in `text`.
pub fn find(text: &[u8], pat: &[u8]) -> (r: Option<usize>)
    ensures
        first_match(text@, pat@) == match r {
            Some(i) => Some(i as int),
            None => None::<int>,
        },
{
    if pat.len() > text.len() {
        proof {
            lemma_first_match_none(text@, pat@);
        }
        return None;
    }
    let last: usize = text.len() - pat.len();
    let mut i: usize = 0;
    loop
        invariant
            pat.len() <= text.len(),
            last == text.len() - pat.len(),
            i <= last,
            forall|j: int| 0 <= j < i ==> !occurs_at(text@, pat@, j),
        decreases last - i,
    {
        if matches_at(text, pat, i) {
            proof {
                lemma_first_match_is(text@, pat@, i as int);
            }
            return Some(i);
        }
        if i == last {
            proof {
                lemma_first_match_none(text@, pat@);
            }
            return None;
        }
        i += 1;
    }
}

/// Replaces every occurrence of the placeholder `pat` in `text` by `with`.
pub fn substitute(text: &[u8], pat: &[u8], with: &[u8]) -> (out: Vec<u8>)
    ensures
        out@ == replace_all(text@, pat@, with@),
{
    let n: usize = text.len();
    let m: usize = pat.len();
    let mut out: Vec<u8> = Vec::new();
    if m == 0 {
        out.extend_from_slice(text);
        assert(out@ =~= text@);
        return out;
    }
    let mut i: usize = 0;
    assert(text@.subrange(0, n as int) =~= text@);
    while i < n
        invariant
            n == text.len(),
            m == pat.len(),
            m > 0,
            i <= n,
            out@ + replace_all(text@.subrange(i as int, n as int), pat@, with@) == replace_all(
                text@,
                pat@,
                with@,
            ),
        decreases n - i,
    {
        let ghost rest = text@.subrange(i as int, n as int);
        let ghost before = out@;
        if n - i >= m && matches_at(text, pat, i) {
            out.extend_from_slice(with);
            proof {
                assert(rest.subrange(0, m as int) =~= text@.subrange(i as int, i + m));
                assert(occurs_at(rest, pat@, 0));
                assert(rest.subrange(m as int, rest.len() as int) =~= text@.subrange(
                    i + m,
                    n as int,
                ));
                assert(out@ =~= before + with@);
                let tail = replace_all(text@.subrange(i + m, n as int), pat@, with@);
                assert((before + with@) + tail =~= before + (with@ + tail));
            }
            i += m;
        } else {
            out.push(text[i]);
            proof {
                if n - i >= m {
                    assert(rest.subrange(0, m as int) =~= text@.subrange(i as int, i + m));
                }
                assert(!occurs_at(rest, pat@, 0));
                assert(rest.drop_first() =~= text@.subrange(i + 1, n as int));
                let tail = replace_all(text@.subrange(i + 1, n as int), pat@, with@);
                assert(before.push(text@[i as int]) + tail =~= before + (seq![rest[0]] + tail));
            }
            i += 1;
        }
    }
    assert(out@ + Seq::<u8>::empty() =~= out@);
    out
}

/// Appends `n` in decimal to `out`.
pub fn push_decimal(out: &mut Vec<u8>, n: usize)
    ensures
        final(out)@ == old(out)@ + decimal(n as nat),
    decreases n,
{
    if n >= 10 {
        push_decimal(out, n / 10);
    }
    let d: u8 = (n % 10) as u8;
    out.push(0x30 + d);
    proof {
        if n >= 10 {
            assert(final(out)@ =~= old(out)@ + decimal((n / 10) as nat).push(digit((n % 10) as nat)));
        } else {
            assert(final(out)@ =~= old(out)@ + seq![digit(n as nat)]);
        }
    }
}

} // verus!
