//! `Layout/TrailingEmptyLines`: the number of blank lines at the end of the
//! source, and the final newline.
//!
//! The check reads only the bytes. A source that is empty, holds the bytes
//! `__END__` anywhere, or ends with `%\n\n` is exempt. Otherwise the longest
//! trailing run of Ruby `\s` holds some number `n` of newlines; the source has
//! `n - 1` trailing blank lines, and style `final_newline` wants none while
//! `final_blank_line` wants one. An offense reports from one past the start of
//! the run (or from the end, when there is no run) to the end, and
//! autocorrect replaces the whole run with `"\n"` or `"\n\n"`.

use vstd::prelude::*;
use crate::rules::space_scan::{is_ruby_space, spec_is_ruby_space};
use crate::rules::bytes::starts_with_at;

verus! {

/// Style `final_newline`.
pub const STYLE_FINAL_NEWLINE: u8 = 0;
/// Style `final_blank_line`.
pub const STYLE_FINAL_BLANK_LINE: u8 = 1;

/// `Layout/TrailingEmptyLines` configuration.
#[derive(Clone, Copy)]
pub struct Config {
    /// `STYLE_FINAL_NEWLINE` or `STYLE_FINAL_BLANK_LINE`.
    pub style: u8,
}

/// The offense of a file (there is at most one).
pub struct TrailingEmptyLinesOffense {
    /// Reported range `[report_start, report_end)`.
    pub report_start: usize,
    pub report_end: usize,
    /// Autocorrect range `[ac_start, ac_end)`.
    pub ac_start: usize,
    pub ac_end: usize,
    /// The text autocorrect writes there.
    pub replacement: &'static str,
    /// The number of newlines in the trailing run, minus one.
    pub blank_lines: i64,
}

/// The number of `\n` bytes in `s`.
pub open spec fn nl_count(s: Seq<u8>) -> nat
    decreases s.len(),
{
    if s.len() == 0 {
        0
    } else {
        nl_count(s.drop_last()) + if s.last() == 10u8 { 1nat } else { 0nat }
    }
}

/// `w` occurs somewhere in `s`.
pub open spec fn contains_seq(s: Seq<u8>, w: Seq<u8>) -> bool {
    exists|k: int| 0 <= k && k + w.len() <= s.len() && #[trigger] s.subrange(k, k + w.len()) == w
}

/// `start` is where the longest trailing run of Ruby `\s` begins.
pub open spec fn trailing_ws_start(s: Seq<u8>, start: int) -> bool {
    &&& 0 <= start <= s.len()
    &&& forall|k: int| start <= k < s.len() ==> spec_is_ruby_space(#[trigger] s[k])
    &&& start > 0 ==> !spec_is_ruby_space(s[start - 1])
}

/// The file is exempt: empty, holding `__END__`, or ending with `%\n\n`.
pub open spec fn exempt(s: Seq<u8>) -> bool {
    s.len() == 0 || contains_seq(s, seq![95u8, 95u8, 69u8, 78u8, 68u8, 95u8, 95u8])
        || (s.len() >= 3 && s.subrange(s.len() - 3, s.len() as int) == seq![37u8, 10u8, 10u8])
}

/// The number of blank lines the style wants.
pub open spec fn wanted(style: u8) -> int {
    if style == STYLE_FINAL_NEWLINE { 0 } else { 1 }
}

/// `r` is the trailing-blank-line verdict on `s` under `style`: nothing for
/// an exempt source; otherwise, with `ws` the start of the trailing run of
/// Ruby `\s`, nothing when the run holds the wanted number of blank lines and
/// else the offense over the run.
pub open spec fn trailing_result(s: Seq<u8>, style: u8, r: Option<TrailingEmptyLinesOffense>) -> bool {
    &&& exempt(s) ==> r is None
    &&& !exempt(s) ==> exists|ws: int| #![trigger trailing_ws_start(s, ws)] trailing_ws_start(s, ws) && {
        let blank = nl_count(s.subrange(ws, s.len() as int)) - 1;
        if blank == wanted(style) {
            r is None
        } else {
            r matches Some(o) && {
                &&& o.ac_start == ws && o.ac_end == s.len()
                &&& o.report_start == (if ws == s.len() { ws } else { ws + 1 })
                &&& o.report_end == s.len()
                &&& o.blank_lines == blank
                &&& o.replacement@ == (if style == STYLE_FINAL_NEWLINE { "\n"@ } else { "\n\n"@ })
            }
        }
    }
}

/// The trailing-blank-line offense of `source`, if any.
pub fn check_trailing_empty_lines(source: &[u8], cfg: &Config) -> (r: Option<TrailingEmptyLinesOffense>)
    requires
        source@.len() <= i64::MAX,
    ensures
        trailing_result(source@, cfg.style, r),
{
    if source.len() == 0 {
        return None;
    }
    if contains_end_marker(source) {
        return None;
    }
    let n = source.len();
    if n >= 3 && source[n - 3] == 37 && source[n - 2] == 10 && source[n - 1] == 10 {
        assert(source@.subrange(n - 3, n as int) =~= seq![37u8, 10u8, 10u8]);
        return None;
    }
    assert(!(n >= 3 && source@.subrange(n - 3, n as int) == seq![37u8, 10u8, 10u8])) by {
        if n >= 3 && source@.subrange(n - 3, n as int) == seq![37u8, 10u8, 10u8] {
            assert(source@.subrange(n - 3, n as int)[0] == source@[n - 3]);
            assert(source@.subrange(n - 3, n as int)[1] == source@[n - 2]);
            assert(source@.subrange(n - 3, n as int)[2] == source@[n - 1]);
        }
    }
    let mut ws_start = n;
    while ws_start > 0 && is_ruby_space(source[ws_start - 1])
        invariant
            ws_start <= n == source@.len(),
            forall|k: int| ws_start <= k < n ==> spec_is_ruby_space(#[trigger] source@[k]),
        decreases ws_start,
    {
        ws_start -= 1;
    }
    let mut count: u64 = 0;
    let mut k = ws_start;
    while k < n
        invariant
            ws_start <= k <= n == source@.len(),
            count == nl_count(source@.subrange(ws_start as int, k as int)),
            count <= k - ws_start,
        decreases n - k,
    {
        assert(source@.subrange(ws_start as int, k + 1).drop_last() =~= source@.subrange(ws_start as int, k as int));
        if source[k] == 10 {
            count += 1;
        }
        k += 1;
    }
    assert(count <= n);
    let blank_lines: i64 = count as i64 - 1;
    let wanted_blank_lines: i64 = if cfg.style == STYLE_FINAL_NEWLINE { 0 } else { 1 };
    proof {
        assert(trailing_ws_start(source@, ws_start as int));
    }
    if blank_lines == wanted_blank_lines {
        return None;
    }
    let report_start = if ws_start == n { ws_start } else { ws_start + 1 };
    let replacement = if cfg.style == STYLE_FINAL_NEWLINE { "\n" } else { "\n\n" };
    Some(TrailingEmptyLinesOffense {
        report_start,
        report_end: n,
        ac_start: ws_start,
        ac_end: n,
        replacement,
        blank_lines,
    })
}

/// Whether the bytes `__END__` occur in `s`.
fn contains_end_marker(s: &[u8]) -> (r: bool)
    ensures
        r == contains_seq(s@, seq![95u8, 95u8, 69u8, 78u8, 68u8, 95u8, 95u8]),
{
    let w = &[95u8, 95u8, 69u8, 78u8, 68u8, 95u8, 95u8];
    let mut k: usize = 0;
    while k < s.len()
        invariant
            k <= s@.len(),
            w@ == seq![95u8, 95u8, 69u8, 78u8, 68u8, 95u8, 95u8],
            forall|q: int| 0 <= q < k && q + 7 <= s@.len() ==> #[trigger] s@.subrange(q, q + 7) != seq![95u8, 95u8, 69u8, 78u8, 68u8, 95u8, 95u8],
        decreases s.len() - k,
    {
        if starts_with_at(s, k, w) {
            assert(s@.subrange(k as int, k + 7) == seq![95u8, 95u8, 69u8, 78u8, 68u8, 95u8, 95u8]);
            return true;
        }
        k += 1;
    }
    false
}

/// The bytes autocorrect writes under `style`: `"\n"` or `"\n\n"`.
pub open spec fn replacement_bytes(style: u8) -> Seq<u8> {
    if style == STYLE_FINAL_NEWLINE { seq![10u8] } else { seq![10u8, 10u8] }
}

/// Autocorrect leaves nothing to correct: once the trailing run of Ruby `\s`
/// (from `ws`) is replaced by the style's text, the trailing run of the new
/// source holds exactly the wanted number of blank lines, so checking it
/// again finds no offense.
pub proof fn autocorrect_is_clean(s: Seq<u8>, style: u8, ws: int)
    requires
        trailing_ws_start(s, ws),
    ensures
        forall|ws2: int| #[trigger] trailing_ws_start(s.subrange(0, ws) + replacement_bytes(style), ws2) ==> nl_count(
            (s.subrange(0, ws) + replacement_bytes(style)).subrange(ws2, ws + replacement_bytes(style).len()),
        ) - 1 == wanted(style),
{
    let r = replacement_bytes(style);
    let s2 = s.subrange(0, ws) + r;
    assert forall|ws2: int| #[trigger] trailing_ws_start(s2, ws2) implies nl_count(
        s2.subrange(ws2, ws + r.len()),
    ) - 1 == wanted(style) by {
        assert(s2.len() == ws + r.len());
        if ws2 < ws {
            assert(s2[ws - 1] == s[ws - 1]);
            assert(spec_is_ruby_space(s2[ws - 1]));
        }
        if ws2 > ws {
            assert(s2[ws2 - 1] == r[ws2 - 1 - ws]);
        }
        assert(ws2 == ws);
        assert(s2.subrange(ws, ws + r.len()) =~= r);
        if style == STYLE_FINAL_NEWLINE {
            assert(r.drop_last().len() == 0);
            assert(nl_count(r.drop_last()) == 0);
            assert(r.last() == 10u8);
            assert(nl_count(r) == 1);
        } else {
            assert(r.drop_last().drop_last().len() == 0);
            assert(nl_count(r.drop_last().drop_last()) == 0);
            assert(r.drop_last().last() == 10u8);
            assert(nl_count(r.drop_last()) == 1);
            assert(nl_count(r) == 2);
        }
    }
}

/// Autocorrect is idempotent: once the trailing run of Ruby `\s` (from
/// `ws`, where the offense's autocorrect range starts) is replaced by the
/// style's text, the verdict on the corrected source is no offense.
pub proof fn autocorrect_is_idempotent(s: Seq<u8>, style: u8, ws: int, r2: Option<TrailingEmptyLinesOffense>)
    requires
        trailing_ws_start(s, ws),
        trailing_result(s.subrange(0, ws) + replacement_bytes(style), style, r2),
    ensures
        r2 is None,
{
    let s2 = s.subrange(0, ws) + replacement_bytes(style);
    autocorrect_is_clean(s, style, ws);
    if !exempt(s2) {
        let ws2 = choose|ws2: int| #[trigger] trailing_ws_start(s2, ws2) && {
            let blank = nl_count(s2.subrange(ws2, s2.len() as int)) - 1;
            if blank == wanted(style) {
                r2 is None
            } else {
                r2 matches Some(o) && {
                    &&& o.ac_start == ws2 && o.ac_end == s2.len()
                    &&& o.report_start == (if ws2 == s2.len() { ws2 } else { ws2 + 1 })
                    &&& o.report_end == s2.len()
                    &&& o.blank_lines == blank
                    &&& o.replacement@ == (if style == STYLE_FINAL_NEWLINE { "\n"@ } else { "\n\n"@ })
                }
            }
        };
        assert(s2.len() == ws + replacement_bytes(style).len());
        assert(nl_count(s2.subrange(ws2, ws + replacement_bytes(style).len())) - 1 == wanted(style));
    }
}

/// Under `final_newline`, a file whose last line ends in exactly one
/// newline (no blank line after it) has the wanted number of blank lines.
pub proof fn one_final_newline_is_clean(s: Seq<u8>, ws: int)
    requires
        s.len() >= 2,
        s[s.len() - 1] == 10u8,
        !spec_is_ruby_space(s[s.len() - 2]),
        trailing_ws_start(s, ws),
    ensures
        nl_count(s.subrange(ws, s.len() as int)) - 1 == wanted(STYLE_FINAL_NEWLINE),
{
    assert(ws == s.len() - 1);
    let r = s.subrange(ws, s.len() as int);
    assert(r.drop_last().len() == 0);
    assert(nl_count(r.drop_last()) == 0);
}

/// Under `final_blank_line`, a file whose last line is followed by exactly
/// one blank line has the wanted number of blank lines.
pub proof fn one_final_blank_line_is_clean(s: Seq<u8>, ws: int)
    requires
        s.len() >= 3,
        s[s.len() - 1] == 10u8,
        s[s.len() - 2] == 10u8,
        !spec_is_ruby_space(s[s.len() - 3]),
        trailing_ws_start(s, ws),
    ensures
        nl_count(s.subrange(ws, s.len() as int)) - 1 == wanted(STYLE_FINAL_BLANK_LINE),
{
    assert(ws == s.len() - 2);
    let r = s.subrange(ws, s.len() as int);
    assert(r.drop_last().drop_last().len() == 0);
    assert(nl_count(r.drop_last().drop_last()) == 0);
    assert(r.drop_last().last() == 10u8);
    assert(nl_count(r.drop_last()) == 1);
    assert(r.last() == 10u8);
    assert(nl_count(r) == 2);
}

} // verus!
