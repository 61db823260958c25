//! Lines and character columns of a source, as the parser reports them: a
//! line ends at `\n`, and a column counts the characters (UTF-8 lead bytes)
//! between the start of the line and a byte offset.

use vstd::prelude::*;

verus! {

/// No line break lies in `[a, b)`.
pub open spec fn no_newline(s: Seq<u8>, a: int, b: int) -> bool {
    forall|q: int| a <= q < b ==> s[q] != 10u8
}

/// Whether `[a, b)` holds no line break, i.e. `a` and `b` lie on one line.
pub fn same_line(s: &[u8], a: usize, b: usize) -> (r: bool)
    requires
        a <= b <= s@.len(),
    ensures
        r == no_newline(s@, a as int, b as int),
{
    let mut q = a;
    while q < b
        invariant
            a <= q <= b <= s@.len(),
            no_newline(s@, a as int, q as int),
        decreases b - q,
    {
        if s[q] == 10u8 {
            return false;
        }
        q += 1;
    }
    true
}

/// The start of the line that holds position `p`.
pub open spec fn line_start(s: Seq<u8>, p: int) -> int
    decreases p,
{
    if 0 < p <= s.len() && s[p - 1] != 10u8 { line_start(s, p - 1) } else { p }
}

/// The start of a line lies at or before the position, and not before the
/// start of the source.
pub proof fn lemma_line_start_bounds(s: Seq<u8>, p: int)
    ensures
        line_start(s, p) <= p,
        0 <= p ==> 0 <= line_start(s, p),
    decreases p,
{
    if 0 < p <= s.len() && s[p - 1] != 10u8 {
        lemma_line_start_bounds(s, p - 1);
    }
}

/// The start of the line that holds position `p`.
pub fn line_start_of(s: &[u8], p: usize) -> (r: usize)
    requires
        p <= s@.len(),
    ensures
        r == line_start(s@, p as int),
        r <= p,
        no_newline(s@, r as int, p as int),
{
    let mut q = p;
    while q > 0 && s[q - 1] != 10u8
        invariant
            q <= p <= s@.len(),
            line_start(s@, q as int) == line_start(s@, p as int),
            no_newline(s@, q as int, p as int),
        decreases q,
    {
        q -= 1;
    }
    q
}

/// A UTF-8 continuation byte (`10xxxxxx`).
pub open spec fn is_continuation(b: u8) -> bool {
    128u8 <= b && b < 192u8
}

/// The number of characters in `[a, b)`: the bytes that are not UTF-8
/// continuation bytes.
pub open spec fn char_count(s: Seq<u8>, a: int, b: int) -> nat
    decreases b - a,
{
    if b <= a {
        0
    } else {
        char_count(s, a, b - 1) + if is_continuation(s[b - 1]) { 0nat } else { 1nat }
    }
}

/// The character column of position `p`.
pub open spec fn column(s: Seq<u8>, p: int) -> nat {
    char_count(s, line_start(s, p), p)
}

/// The character column of position `p`.
pub fn column_of(s: &[u8], p: usize) -> (r: usize)
    requires
        p <= s@.len(),
    ensures
        r == column(s@, p as int),
        r <= p,
{
    let ls = line_start_of(s, p);
    let mut n: usize = 0;
    let mut q = ls;
    while q < p
        invariant
            ls <= q <= p <= s@.len(),
            n == char_count(s@, ls as int, q as int),
            n <= q - ls,
        decreases p - q,
    {
        if !(128u8 <= s[q] && s[q] < 192u8) {
            n += 1;
        }
        q += 1;
    }
    n
}

/// Back from `q` to the lead byte of its character.
pub open spec fn back_to_lead(s: Seq<u8>, q: int) -> int
    decreases q,
{
    if 0 < q < s.len() && is_continuation(s[q]) { back_to_lead(s, q - 1) } else { q }
}

/// `p` moved left by `n` characters, stopping at the start.
pub open spec fn move_left(s: Seq<u8>, p: int, n: nat) -> int
    decreases n,
{
    if n == 0 || p <= 0 { if n == 0 { p } else { 0 } } else { move_left(s, back_to_lead(s, p - 1), (n - 1) as nat) }
}

/// Forward from `q` to the next lead byte (or the end).
pub open spec fn fwd_to_lead(s: Seq<u8>, q: int) -> int
    decreases s.len() - q,
{
    if 0 <= q < s.len() && is_continuation(s[q]) { fwd_to_lead(s, q + 1) } else { q }
}

/// `p` moved right by `n` characters; past the end each step is one byte.
pub open spec fn move_right(s: Seq<u8>, p: int, n: nat) -> int
    decreases n,
{
    if n == 0 {
        p
    } else if p >= s.len() {
        move_right(s, p + 1, (n - 1) as nat)
    } else {
        move_right(s, fwd_to_lead(s, p + 1), (n - 1) as nat)
    }
}

/// `p` moved left by `n` characters.
pub fn move_left_of(s: &[u8], p: usize, n: usize) -> (r: usize)
    requires
        p <= s@.len(),
    ensures
        r == move_left(s@, p as int, n as nat),
        r <= p,
{
    let mut pos = p;
    let mut k: usize = 0;
    while k < n
        invariant
            pos <= p <= s@.len(),
            k <= n,
            move_left(s@, pos as int, (n - k) as nat) == move_left(s@, p as int, n as nat),
        decreases n - k,
    {
        if pos == 0 {
            assert(move_left(s@, 0, (n - k) as nat) == 0);
            return 0;
        }
        let mut q = pos - 1;
        while q > 0 && q < s.len() && 128u8 <= s[q] && s[q] < 192u8
            invariant
                q < pos,
                back_to_lead(s@, q as int) == back_to_lead(s@, (pos - 1) as int),
            decreases q,
        {
            q -= 1;
        }
        pos = q;
        k += 1;
    }
    pos
}

/// `p` moved right by `n` characters.
pub fn move_right_of(s: &[u8], p: usize, n: usize) -> (r: usize)
    requires
        p <= s@.len(),
        s@.len() <= isize::MAX,
        n <= s@.len(),
    ensures
        r == move_right(s@, p as int, n as nat),
{
    let mut pos = p;
    let mut k: usize = 0;
    while k < n
        invariant
            k <= n,
            n <= s@.len() <= isize::MAX,
            pos <= s@.len() + k,
            pos >= p,
            move_right(s@, pos as int, (n - k) as nat) == move_right(s@, p as int, n as nat),
        decreases n - k,
    {
        if pos >= s.len() {
            pos += 1;
        } else {
            let mut q = pos + 1;
            while q < s.len() && 128u8 <= s[q] && s[q] < 192u8
                invariant
                    pos < q <= s@.len(),
                    fwd_to_lead(s@, q as int) == fwd_to_lead(s@, (pos + 1) as int),
                decreases s@.len() - q,
            {
                q += 1;
            }
            pos = q;
        }
        k += 1;
    }
    pos
}

} // verus!
