//! Byte helpers shared by the rules.

use vstd::prelude::*;
use vstd::utf8::{valid_utf8, decode_utf8};

verus! {

/// Rust's `u8::is_ascii_whitespace`: space, tab, newline, form feed, carriage
/// return (not the vertical tab).
pub open spec fn spec_ascii_ws(b: u8) -> bool {
    b == 32 || b == 9 || b == 10 || b == 12 || b == 13
}

/// `u8::is_ascii_whitespace`.
#[verifier::when_used_as_spec(spec_ascii_ws)]
pub fn ascii_ws(b: u8) -> (r: bool)
    ensures
        r == spec_ascii_ws(b),
{
    b == 32 || b == 9 || b == 10 || b == 12 || b == 13
}

/// Whether `s[start..end]` is exactly `w`.
pub fn range_is(s: &[u8], start: usize, end: usize, w: &[u8]) -> (r: bool)
    requires
        start <= end <= s@.len(),
    ensures
        r == (s@.subrange(start as int, end as int) == w@),
{
    if end - start != w.len() {
        assert(s@.subrange(start as int, end as int).len() != w@.len());
        return false;
    }
    let mut i: usize = 0;
    while i < w.len()
        invariant
            start <= end <= s@.len(),
            end - start == w@.len(),
            i <= w@.len(),
            forall|q: int| 0 <= q < i ==> s@[start + q] == w@[q],
        decreases w.len() - i,
    {
        if s[start + i] != w[i] {
            assert(s@.subrange(start as int, end as int)[i as int] != w@[i as int]);
            return false;
        }
        i += 1;
    }
    assert(s@.subrange(start as int, end as int) =~= w@);
    true
}

/// Whether the bytes of `v` are exactly `w`.
pub fn vec_is(v: &Vec<u8>, w: &[u8]) -> (r: bool)
    ensures
        r == (v@ == w@),
{
    let s: &[u8] = v.as_slice();
    assert(s@ == v@);
    let r = range_is(s, 0, s.len(), w);
    assert(s@.subrange(0, s@.len() as int) =~= s@);
    r
}

/// Whether `a` and `b` hold the same bytes.
pub fn slices_equal(a: &[u8], b: &[u8]) -> (r: bool)
    ensures
        r == (a@ == b@),
{
    if a.len() != b.len() {
        return false;
    }
    let r = range_is(a, 0, a.len(), b);
    assert(a@.subrange(0, a@.len() as int) =~= a@);
    r
}

/// Whether `s[start..]` begins with `w` (false when `s` is too short).
pub fn starts_with_at(s: &[u8], start: usize, w: &[u8]) -> (r: bool)
    ensures
        r == (start + w@.len() <= s@.len() && s@.subrange(start as int, start + w@.len()) == w@),
{
    if start > s.len() || s.len() - start < w.len() {
        return false;
    }
    range_is(s, start, start + w.len(), w)
}

/// Whether `s[a0..a1]` and `s[b0..b1]` hold the same bytes.
pub fn ranges_equal(s: &[u8], a0: usize, a1: usize, b0: usize, b1: usize) -> (r: bool)
    requires
        a0 <= a1 <= s@.len(),
        b0 <= b1 <= s@.len(),
    ensures
        r == (s@.subrange(a0 as int, a1 as int) == s@.subrange(b0 as int, b1 as int)),
{
    if a1 - a0 != b1 - b0 {
        assert(s@.subrange(a0 as int, a1 as int).len() != s@.subrange(b0 as int, b1 as int).len());
        return false;
    }
    let n = a1 - a0;
    let mut i: usize = 0;
    while i < n
        invariant
            a0 <= a1 <= s@.len(),
            b0 <= b1 <= s@.len(),
            n == a1 - a0,
            n == b1 - b0,
            i <= n,
            s@.subrange(a0 as int, a0 + i) =~= s@.subrange(b0 as int, b0 + i),
        decreases n - i,
    {
        if s[a0 + i] != s[b0 + i] {
            assert(s@.subrange(a0 as int, a1 as int)[i as int] != s@.subrange(b0 as int, b1 as int)[i as int]);
            return false;
        }
        assert(s@.subrange(a0 as int, a0 + i + 1) =~= s@.subrange(a0 as int, a0 + i).push(s@[a0 + i]));
        assert(s@.subrange(b0 as int, b0 + i + 1) =~= s@.subrange(b0 as int, b0 + i).push(s@[b0 + i]));
        i += 1;
    }
    assert(s@.subrange(a0 as int, a1 as int) =~= s@.subrange(b0 as int, b1 as int));
    true
}

/// The text `String::from_utf8_lossy` makes of `b`: its characters, with
/// each invalid sequence replaced by U+FFFD.
pub uninterp spec fn lossy_text(b: Seq<u8>) -> Seq<char>;

/// The decoded text of `b` (invalid sequences replaced by U+FFFD), by
/// `String::from_utf8_lossy`. Claimed: the text is [`lossy_text`] of the
/// bytes, and valid UTF-8 decodes to its characters.
#[verifier::external_body]
pub(crate) fn lossy_string(b: &[u8]) -> (r: String)
    ensures
        r@ == lossy_text(b@),
        valid_utf8(b@) ==> r@ == decode_utf8(b@),
{
    String::from_utf8_lossy(b).into_owned()
}

/// Whether `b` is valid UTF-8, by `std::str::from_utf8`, which returns an
/// error exactly for bytes that are not. Claimed: the answer is vstd's
/// [`valid_utf8`] of the bytes.
#[verifier::external_body]
pub(crate) fn utf8_ok(b: &[u8]) -> (r: bool)
    ensures
        r == valid_utf8(b@),
{
    std::str::from_utf8(b).is_ok()
}

} // verus!
