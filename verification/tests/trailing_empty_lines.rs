use shirobai_core::rules::trailing_empty_lines::{check_trailing_empty_lines, Config, STYLE_FINAL_BLANK_LINE, STYLE_FINAL_NEWLINE};

fn run(source: &str, style: u8) -> Option<(usize, usize, usize, usize, String, i64)> {
    check_trailing_empty_lines(source.as_bytes(), &Config { style }).map(|o| {
        (
            o.report_start,
            o.report_end,
            o.ac_start,
            o.ac_end,
            o.replacement.to_string(),
            o.blank_lines,
        )
    })
}

// Typical (final_newline): a file ending in exactly one newline is clean.
#[test]
fn final_newline_single_newline_ok() {
    assert_eq!(run("x = 0\n", STYLE_FINAL_NEWLINE), None);
}

// Typical: an empty file is always accepted.
#[test]
fn empty_file_ok() {
    assert_eq!(run("", STYLE_FINAL_NEWLINE), None);
    assert_eq!(run("", STYLE_FINAL_BLANK_LINE), None);
}

// Typical (final_newline): a missing final newline reports a zero-width
// range at end-of-source and inserts "\n".
#[test]
fn final_newline_missing() {
    // "x = 0" len 5, no trailing ws -> report [5,5), ac [5,5), blank -1.
    assert_eq!(
        run("x = 0", STYLE_FINAL_NEWLINE),
        Some((5, 5, 5, 5, "\n".to_string(), -1))
    );
}

// Typical (final_newline): a single trailing blank line is removed; the
// report range starts one byte after the first newline.
#[test]
fn final_newline_one_trailing_blank() {
    // "x = 0\n\n": ws run = "\n\n" at [5,7), count("\n")=2 -> blank 1.
    // report begin 5+1=6, ac [5,7) replace "\n".
    assert_eq!(
        run("x = 0\n\n", STYLE_FINAL_NEWLINE),
        Some((6, 7, 5, 7, "\n".to_string(), 1))
    );
}

// Multiple trailing blank lines: still one offense, ac spans the whole run.
#[test]
fn final_newline_multi_trailing_blank() {
    // "x = 0\n\n\n\n": ws [5,9) count 4 -> blank 3.
    assert_eq!(
        run("x = 0\n\n\n\n", STYLE_FINAL_NEWLINE),
        Some((6, 9, 5, 9, "\n".to_string(), 3))
    );
}

// Trailing whitespace that includes spaces is part of the run.
#[test]
fn final_newline_spaces_in_blanks() {
    // "x = 0\n   \n\n\n": ws starts at index 5, len 7.
    let src = "x = 0\n   \n\n\n";
    assert_eq!(
        run(src, STYLE_FINAL_NEWLINE),
        Some((6, src.len(), 5, src.len(), "\n".to_string(), 3))
    );
}

// A file of only newlines: blank_lines = count - 1.
#[test]
fn only_newlines() {
    // "\n\n\n": ws [0,3) count 3 -> blank 2, report begin 0+1=1.
    assert_eq!(
        run("\n\n\n", STYLE_FINAL_NEWLINE),
        Some((1, 3, 0, 3, "\n".to_string(), 2))
    );
}

// Typical (final_blank_line): a file ending in one blank line is clean.
#[test]
fn final_blank_line_one_blank_ok() {
    assert_eq!(run("x = 0\n\n", STYLE_FINAL_BLANK_LINE), None);
}

// final_blank_line: only a final newline -> "Trailing blank line missing.".
#[test]
fn final_blank_line_needs_blank() {
    // "x = 0\n": ws "\n" count 1 -> blank 0, wanted 1. report begin 5+1=6.
    assert_eq!(
        run("x = 0\n", STYLE_FINAL_BLANK_LINE),
        Some((6, 6, 5, 6, "\n\n".to_string(), 0))
    );
}

// final_blank_line: missing final newline -> blank -1, insert "\n\n".
#[test]
fn final_blank_line_missing_newline() {
    assert_eq!(
        run("x = 0", STYLE_FINAL_BLANK_LINE),
        Some((5, 5, 5, 5, "\n\n".to_string(), -1))
    );
}

// final_blank_line: too many blanks collapse to one.
#[test]
fn final_blank_line_multi_collapses() {
    // "x = 0\n\n\n": ws [5,8) count 3 -> blank 2, wanted 1, replace "\n\n".
    assert_eq!(
        run("x = 0\n\n\n", STYLE_FINAL_BLANK_LINE),
        Some((6, 8, 5, 8, "\n\n".to_string(), 2))
    );
}

// CRLF: `\r` counts as `\s`, so "\r\n\r\n" is one run, count("\n")=2.
#[test]
fn crlf_trailing_blank_final_newline() {
    // "x = 0\r\n\r\n": ws [5,9) count 2 -> blank 1, wanted 0, replace "\n".
    assert_eq!(
        run("x = 0\r\n\r\n", STYLE_FINAL_NEWLINE),
        Some((6, 9, 5, 9, "\n".to_string(), 1))
    );
}

// CRLF: one blank line under final_blank_line is clean.
#[test]
fn crlf_trailing_blank_final_blank_line_ok() {
    assert_eq!(run("x = 0\r\n\r\n", STYLE_FINAL_BLANK_LINE), None);
}

// `__END__` anywhere (even mid-file with data after) exempts the file.
#[test]
fn end_marker_exempts() {
    assert_eq!(run("x = 0\n__END__\n\n\n\n", STYLE_FINAL_NEWLINE), None);
}

// `__END__` as a byte substring inside a string literal still exempts
// (stock's regex is an unanchored substring match).
#[test]
fn end_marker_substring_exempts() {
    assert_eq!(run("x = \"__END__\"\n\n\n", STYLE_FINAL_NEWLINE), None);
    assert_eq!(run("MY__END__X = 1\n\n\n", STYLE_FINAL_NEWLINE), None);
}

// The `%\n\n` percent-form ending is exempt.
#[test]
fn percent_blank_string_exempts() {
    assert_eq!(run("%\n\n", STYLE_FINAL_NEWLINE), None);
    assert_eq!(run("x = %\n\n", STYLE_FINAL_NEWLINE), None);
    assert_eq!(run("%\n\n", STYLE_FINAL_BLANK_LINE), None);
}

// But `%\n\n\n` does NOT end with `%\n\n`, so it offends.
#[test]
fn percent_extra_blank_offends() {
    // "%\n\n\n": ws [1,4) count 3 -> blank 2, report begin 1+1=2.
    assert_eq!(
        run("%\n\n\n", STYLE_FINAL_NEWLINE),
        Some((2, 4, 1, 4, "\n".to_string(), 2))
    );
}

#[test]
fn autocorrected_source_is_clean() {
    for style in [STYLE_FINAL_NEWLINE, STYLE_FINAL_BLANK_LINE] {
        for src in ["x = 0", "x = 0\n\n\n", "x = 0\n  \n\t\n", "\n\n", "x = 0\r\n\r\n\r\n", "x = 0\n"] {
            if let Some(o) = check_trailing_empty_lines(src.as_bytes(), &Config { style }) {
                let mut fixed = src.as_bytes()[..o.ac_start].to_vec();
                fixed.extend_from_slice(o.replacement.as_bytes());
                fixed.extend_from_slice(&src.as_bytes()[o.ac_end..]);
                assert!(check_trailing_empty_lines(&fixed, &Config { style }).is_none());
            }
        }
    }
}
