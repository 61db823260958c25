//! The two naming styles of `RSpec/VariableName`:
//! `snake_case` is `/^@{0,2}[\d[[:lower:]]_]+[!?=]?$/` and `camelCase` is
//! `/^@{0,2}(?:_|_?[[:lower:]][\d[[:lower:]][[:upper:]]]*)[!?=]?$/`, where
//! `[[:lower:]]` and `[[:upper:]]` are Unicode's Lowercase and Uppercase
//! properties and `\d` is an ASCII digit.

use vstd::prelude::*;

verus! {

/// Whether `c` has Unicode's Lowercase property, as `char::is_lowercase`
/// answers it.
pub uninterp spec fn char_lowercase(c: char) -> bool;

/// Whether `c` has Unicode's Uppercase property, as `char::is_uppercase`
/// answers it.
pub uninterp spec fn char_uppercase(c: char) -> bool;

/// `char::is_lowercase`. Claimed: its answer is [`char_lowercase`] of `c`.
#[verifier::external_body]
fn is_lowercase(c: char) -> (r: bool)
    ensures
        r == char_lowercase(c),
{
    c.is_lowercase()
}

/// `char::is_uppercase`. Claimed: its answer is [`char_uppercase`] of `c`.
#[verifier::external_body]
fn is_uppercase(c: char) -> (r: bool)
    ensures
        r == char_uppercase(c),
{
    c.is_uppercase()
}

/// An ASCII digit.
pub open spec fn is_digit(c: char) -> bool {
    '0' <= c <= '9'
}

/// `s` without up to two leading `@`.
pub open spec fn strip_ats(s: Seq<char>) -> Seq<char> {
    let s1 = if s.len() > 0 && s[0] == '@' { s.drop_first() } else { s };
    if s1.len() > 0 && s1[0] == '@' { s1.drop_first() } else { s1 }
}

/// `s` without up to two leading `@` and one trailing `!`, `?` or `=`.
pub open spec fn name_body(s: Seq<char>) -> Seq<char> {
    let b = strip_ats(s);
    if b.len() > 0 && (b.last() == '!' || b.last() == '?' || b.last() == '=') { b.drop_last() } else { b }
}

/// A character of a snake_case body: a digit, `_` or lowercase.
pub open spec fn snake_char(c: char) -> bool {
    is_digit(c) || c == '_' || char_lowercase(c)
}

/// A character after the first of a camelCase body: a digit, lowercase or
/// uppercase.
pub open spec fn camel_char(c: char) -> bool {
    is_digit(c) || char_lowercase(c) || char_uppercase(c)
}

/// `name` is snake_case.
pub open spec fn spec_snake_case(name: Seq<char>) -> bool {
    let b = name_body(name);
    b.len() > 0 && forall|k: int| 0 <= k < b.len() ==> snake_char(#[trigger] b[k])
}

/// `name` is camelCase.
pub open spec fn spec_camel_case(name: Seq<char>) -> bool {
    let b = name_body(name);
    if b == seq!['_'] {
        true
    } else {
        camel_tail(if b.len() > 0 && b[0] == '_' { b.drop_first() } else { b })
    }
}

/// A lowercase character, then digits, lowercase and uppercase ones.
pub open spec fn camel_tail(c: Seq<char>) -> bool {
    c.len() > 0 && char_lowercase(c[0]) && forall|k: int| 1 <= k < c.len() ==> camel_char(#[trigger] c[k])
}

/// `name` has the style `style`: camelCase for `1`, snake_case otherwise.
pub open spec fn spec_matches_style(name: Seq<char>, style: u8) -> bool {
    if style == 1 { spec_camel_case(name) } else { spec_snake_case(name) }
}

/// The bounds `[a, b)` of the body of `name` ([`name_body`]).
fn body_bounds(name: &str) -> (r: (usize, usize))
    ensures
        r.0 <= r.1 <= name@.len(),
        name@.subrange(r.0 as int, r.1 as int) == name_body(name@),
{
    let n = name.unicode_len();
    let mut a: usize = 0;
    if a < n && name.get_char(a) == '@' {
        a += 1;
    }
    if a < n && name.get_char(a) == '@' {
        a += 1;
    }
    proof {
        let s = name@;
        let s1 = if s.len() > 0 && s[0] == '@' { s.drop_first() } else { s };
        if s.len() > 0 && s[0] == '@' {
            assert(s1 =~= s.subrange(1, s.len() as int));
            if s1.len() > 0 && s1[0] == '@' {
                assert(s1.drop_first() =~= s.subrange(2, s.len() as int));
            }
        } else {
            assert(s1 =~= s.subrange(0, s.len() as int));
            if s1.len() > 0 && s1[0] == '@' {
                assert(s1.drop_first() =~= s.subrange(1, s.len() as int));
            }
        }
        assert(s.subrange(a as int, n as int) =~= strip_ats(s));
    }
    let mut b = n;
    if a < b {
        let l = name.get_char(b - 1);
        if l == '!' || l == '?' || l == '=' {
            b -= 1;
        }
    }
    proof {
        let st = name@.subrange(a as int, n as int);
        if b < n {
            assert(st.last() == name@[n - 1]);
            assert(st.drop_last() =~= name@.subrange(a as int, b as int));
        } else {
            assert(a < n ==> st.last() == name@[n - 1]);
            assert(st =~= name@.subrange(a as int, b as int));
        }
    }
    (a, b)
}

/// Whether `name` is snake_case.
pub fn snake_case(name: &str) -> (r: bool)
    ensures
        r == spec_snake_case(name@),
{
    let (a, b) = body_bounds(name);
    let ghost body = name@.subrange(a as int, b as int);
    if a == b {
        return false;
    }
    let mut k = a;
    while k < b
        invariant
            a <= k <= b <= name@.len(),
            body == name@.subrange(a as int, b as int),
            body == name_body(name@),
            forall|q: int| 0 <= q < k - a ==> snake_char(#[trigger] body[q]),
        decreases b - k,
    {
        let c = name.get_char(k);
        assert(body[k - a] == c);
        let u = c as u32;
        if !((u >= 48 && u <= 57) || c == '_' || is_lowercase(c)) {
            assert(!snake_char(body[k - a]));
            return false;
        }
        k += 1;
    }
    true
}

/// Whether `name` is camelCase.
pub fn camel_case(name: &str) -> (r: bool)
    ensures
        r == spec_camel_case(name@),
{
    let (a, b) = body_bounds(name);
    let ghost body = name@.subrange(a as int, b as int);
    if b - a == 1 && name.get_char(a) == '_' {
        assert(body =~= seq!['_']);
        return true;
    }
    assert(body != seq!['_']) by {
        if body == seq!['_'] {
            assert(body.len() == 1);
            assert(body[0] == name@[a as int]);
        }
    }
    let mut c0 = a;
    if c0 < b && name.get_char(c0) == '_' {
        c0 += 1;
    }
    let ghost c = name@.subrange(c0 as int, b as int);
    proof {
        if body.len() > 0 && body[0] == '_' {
            assert(body.drop_first() =~= c);
        } else {
            assert(body =~= c);
        }
    }
    if c0 == b || !is_lowercase(name.get_char(c0)) {
        return false;
    }
    assert(c[0] == name@[c0 as int]);
    let mut k = c0 + 1;
    while k < b
        invariant
            c0 < k <= b <= name@.len(),
            c == name@.subrange(c0 as int, b as int),
            spec_camel_case(name@) == camel_tail(c),
            c.len() > 0 && char_lowercase(c[0]),
            forall|q: int| 1 <= q < k - c0 ==> camel_char(#[trigger] c[q]),
        decreases b - k,
    {
        let ch = name.get_char(k);
        assert(c[k - c0] == ch);
        let u = ch as u32;
        if !((u >= 48 && u <= 57) || is_lowercase(ch) || is_uppercase(ch)) {
            assert(!camel_char(c[k - c0]));
            return false;
        }
        k += 1;
    }
    true
}

/// Whether `name` has the style `style` ([`spec_matches_style`]).
pub fn matches_style(name: &str, style: u8) -> (r: bool)
    ensures
        r == spec_matches_style(name@, style),
{
    if style == 1 { camel_case(name) } else { snake_case(name) }
}

} // verus!
