use rspfind::format::{width_from, width_of, LineFormatter};
use rspfind::paint::without_codes;

const LONG_LINE: &str = "This is a very long line with multiple words and the search term appears somewhere in the middle of this long content";

#[test]
fn test_short_line_formatting() {
    let formatter = LineFormatter::new();
    let line = "This is a short line";
    let result = formatter.format_long_line(line, "short", &[10]);
    assert!(result.contains("short"));
}

#[test]
fn test_long_line_formatting() {
    let formatter = LineFormatter::with_limits(50, 5);

    let long_line = "This is a very long line with multiple words and the search term appears somewhere in the middle of this long content";
    let result = formatter.format_long_line(long_line, "search", &[60]);

    // Offset 60 is the `t` of "term", so the window is [55, 71) and the six
    // characters marked are "term a".
    assert!(result.contains("..."));
    assert_eq!(result, "...arch \x1b[41mterm a\x1b[49mppear...");
    assert!(result.len() <= 50);
}

#[test]
fn long_line_with_the_offset_of_the_query() {
    let formatter = LineFormatter::with_limits(50, 5);
    let result = formatter.format_long_line(LONG_LINE, "search", &[53]);
    assert!(result.contains("..."));
    assert!(result.contains("search"));
    assert!(result.len() <= 50);
    assert_eq!(result, "... the \x1b[41msearch\x1b[49m term...");
    let pure = formatter.format_long_line_pure(LONG_LINE, "search", &[53]);
    assert_eq!(pure, "... the search term...");
}

#[test]
fn short_line_is_marked_in_place() {
    let formatter = LineFormatter::new();
    let result = formatter.format_long_line("This is a short line", "short", &[10]);
    assert_eq!(result, "This is a \x1b[41mshort\x1b[49m line");
    let pure = formatter.format_long_line_pure("This is a short line", "short", &[10]);
    assert_eq!(pure, "This is a short line");
}

#[test]
fn several_occurrences_are_all_marked() {
    let formatter = LineFormatter::new();
    let result = formatter.format_long_line("the cat sat on the mat", "at", &[5, 9, 20]);
    assert_eq!(
        result,
        "the c\x1b[41mat\x1b[49m s\x1b[41mat\x1b[49m on the m\x1b[41mat\x1b[49m"
    );
}

#[test]
fn long_line_with_one_match_has_both_ellipses() {
    let line = format!("{}MATCH{}", "a".repeat(150), "b".repeat(45));
    assert_eq!(line.chars().count(), 200);
    let formatter = LineFormatter::with_limits(80, 20);
    let pure = formatter.format_long_line_pure(&line, "MATCH", &[150]);
    assert_eq!(pure, format!("...{}MATCH{}...", "a".repeat(20), "b".repeat(20)));
    assert!(pure.chars().count() <= 80);
    let shown = formatter.format_long_line(&line, "MATCH", &[150]);
    assert!(shown.starts_with("..."));
    assert!(shown.ends_with("..."));
    assert_eq!(
        shown,
        format!("...{}\x1b[41mMATCH\x1b[49m{}...", "a".repeat(20), "b".repeat(20))
    );
    assert!(shown.chars().count() <= 80 + 10);
}

#[test]
fn default_formatter_is_eighty_wide_with_twenty_of_context() {
    let line = format!("{}MATCH{}", "a".repeat(150), "b".repeat(45));
    let by_default = LineFormatter::new().format_long_line_pure(&line, "MATCH", &[150]);
    let by_limits = LineFormatter::with_limits(80, 20).format_long_line_pure(&line, "MATCH", &[150]);
    assert_eq!(by_default, by_limits);
}

#[test]
fn line_of_exactly_the_width_is_shown_whole() {
    let formatter = LineFormatter::with_limits(10, 2);
    let pure = formatter.format_long_line_pure("abcdefghij", "x", &[]);
    assert_eq!(pure, "abcdefghij");
    let marked = formatter.format_long_line("abcdefghij", "ij", &[8]);
    assert_eq!(marked, "abcdefgh\x1b[41mij\x1b[49m");
}

#[test]
fn line_of_one_more_than_the_width_is_cut() {
    let formatter = LineFormatter::with_limits(10, 2);
    let pure = formatter.format_long_line_pure("abcdefghijk", "x", &[]);
    assert_eq!(pure, "abcdefg...");
    let windowed = formatter.format_long_line_pure("abcdefghijk", "f", &[5]);
    assert_eq!(windowed, "...defg...");
}

#[test]
fn long_line_without_offsets_keeps_its_front() {
    let formatter = LineFormatter::with_limits(50, 5);
    let result = formatter.format_long_line(LONG_LINE, "search", &[]);
    assert_eq!(result, format!("{}...", &LONG_LINE[..47]));
    assert_eq!(result.len(), 50);
}

#[test]
fn wide_cluster_is_centred_on_the_first_occurrence() {
    let formatter = LineFormatter::with_limits(20, 5);
    let line = "0123456789abcdefghijklmnopqrstuvwxyzABCD";
    let pure = formatter.format_long_line_pure(line, "xx", &[10, 30]);
    assert_eq!(pure, "...3456789abcdefg...");
    let shown = formatter.format_long_line(line, "xx", &[10, 30]);
    assert_eq!(shown, "...3456789\x1b[41mab\x1b[49mcdefg...");
}

#[test]
fn window_at_the_front_has_no_leading_ellipsis() {
    let formatter = LineFormatter::with_limits(20, 5);
    let line = "0123456789abcdefghijklmnopqrstuvwxyzABCD";
    let pure = formatter.format_long_line_pure(line, "23", &[2]);
    assert_eq!(pure, "012345678...");
}

#[test]
fn window_at_the_end_has_no_trailing_ellipsis() {
    let formatter = LineFormatter::with_limits(20, 5);
    let line = "0123456789abcdefghijklmnopqrstuvwxyzABCD";
    let pure = formatter.format_long_line_pure(line, "AB", &[36]);
    assert_eq!(pure, "...vwxyzABCD");
}

#[test]
fn offsets_past_the_end_are_passed_over() {
    let formatter = LineFormatter::new();
    assert_eq!(formatter.format_long_line("abc", "b", &[10]), "abc");
    assert_eq!(formatter.format_long_line("abc", "b", &[usize::MAX]), "abc");
    assert_eq!(formatter.format_long_line("", "b", &[0]), "");
    let small = LineFormatter::with_limits(4, 1);
    assert_eq!(small.format_long_line_pure("abcdefgh", "b", &[usize::MAX]), "...");
}

#[test]
fn occurrence_is_cut_at_the_end_of_the_line() {
    let formatter = LineFormatter::new();
    assert_eq!(
        formatter.format_long_line("abcdef", "xyz", &[4]),
        "abcd\x1b[41mef\x1b[49m"
    );
}

#[test]
fn offsets_count_characters_not_bytes() {
    let formatter = LineFormatter::new();
    assert_eq!(
        formatter.format_long_line("héllo wörld", "wörld", &[6]),
        "héllo \x1b[41mwörld\x1b[49m"
    );
    let narrow = LineFormatter::with_limits(9, 1);
    assert_eq!(
        narrow.format_long_line_pure("ääääääääääöö", "öö", &[10]),
        "...äöö"
    );
    let narrower = LineFormatter::with_limits(8, 1);
    assert_eq!(
        narrower.format_long_line_pure("ääääääääääöö", "öö", &[10]),
        "...äö..."
    );
}

#[test]
fn widths_below_six_leave_an_empty_window() {
    let formatter = LineFormatter::with_limits(2, 0);
    assert_eq!(formatter.format_long_line_pure("abcdef", "b", &[]), "...");
    assert_eq!(formatter.format_long_line_pure("abcdef", "b", &[1]), "......");
}

#[test]
fn highlighting_alone_never_cuts() {
    let formatter = LineFormatter::with_limits(5, 1);
    assert_eq!(
        formatter.highlight_matches_safe("a long line of text", "line", &[7]),
        "a long \x1b[41mline\x1b[49m of text"
    );
    assert_eq!(
        formatter.highlight_matches_safe_pure("a long line of text", "line", &[7]),
        "a long line of text"
    );
    assert_eq!(formatter.highlight_matches_safe("no offsets", "x", &[]), "no offsets");
}

#[test]
fn plain_rendering_twice_gives_the_same() {
    let formatter = LineFormatter::with_limits(50, 5);
    let first = formatter.format_long_line_pure(LONG_LINE, "search", &[53]);
    let second = formatter.format_long_line_pure(LONG_LINE, "search", &[53]);
    assert_eq!(first, second);
    let other = LineFormatter::with_limits(50, 5);
    assert_eq!(other.format_long_line_pure(LONG_LINE, "search", &[53]), first);
}

#[test]
fn decorated_without_codes_is_plain() {
    let formatter = LineFormatter::new();
    let line = "the cat sat on the mat";
    let shown = formatter.format_long_line(line, "at", &[5, 9, 20]);
    let pure = formatter.format_long_line_pure(line, "at", &[5, 9, 20]);
    assert_ne!(shown, pure);
    assert_eq!(without_codes(&shown), pure);
    assert_eq!(pure, line);
    let narrow = LineFormatter::with_limits(50, 5);
    assert_eq!(
        without_codes(&narrow.format_long_line(LONG_LINE, "search", &[53])),
        narrow.format_long_line_pure(LONG_LINE, "search", &[53])
    );
}

#[test]
fn codes_in_the_line_itself_do_not_survive_stripping() {
    let formatter = LineFormatter::new();
    let line = "\x1b[41mred";
    let shown = formatter.format_long_line(line, "x", &[]);
    let pure = formatter.format_long_line_pure(line, "x", &[]);
    assert_eq!(shown, pure);
    assert_eq!(without_codes(&shown), "red");
}

#[test]
fn stripping_removes_two_digit_codes_only() {
    assert_eq!(without_codes("a\x1b[32mb\x1b[39mc"), "abc");
    assert_eq!(without_codes("\x1b[3m"), "\x1b[3m");
    assert_eq!(without_codes("\x1b[4"), "\x1b[4");
    assert_eq!(without_codes(""), "");
    assert_eq!(without_codes("plain"), "plain");
}

#[test]
fn overlapping_offsets_write_nothing_twice() {
    let formatter = LineFormatter::new();
    assert_eq!(formatter.format_long_line_pure("aaaa", "aa", &[0, 1]), "aaaa");
    assert_eq!(formatter.highlight_matches_safe_pure("aaaa", "aa", &[0, 1]), "aaaa");
    assert_eq!(
        formatter.format_long_line("aaaa", "aa", &[0, 1]),
        "\x1b[41maa\x1b[49m\x1b[41ma\x1b[49ma"
    );
    assert_eq!(
        formatter.format_long_line("abcdef", "bcd", &[1, 1, 2]),
        "a\x1b[41mbcd\x1b[49m\x1b[41me\x1b[49mf"
    );
    assert_eq!(formatter.format_long_line_pure("abcdef", "bcd", &[1, 1, 2]), "abcdef");
}

#[test]
fn unordered_offsets_write_nothing_twice() {
    let formatter = LineFormatter::new();
    let line = "the cat sat on the mat";
    assert_eq!(formatter.format_long_line_pure(line, "at", &[20, 5, 9]), line);
    assert_eq!(formatter.format_long_line_pure(line, "at", &[9, 5, 20, 0, 100]), line);
    assert_eq!(
        formatter.format_long_line(line, "at", &[20, 5, 9]),
        "the cat sat on the m\x1b[41mat\x1b[49m"
    );
    assert_eq!(
        formatter.format_long_line(line, "at", &[9, 5, 20]),
        "the cat s\x1b[41mat\x1b[49m on the m\x1b[41mat\x1b[49m"
    );
    assert_eq!(without_codes(&formatter.format_long_line(line, "at", &[9, 5, 20])), line);
    assert_eq!(
        formatter.highlight_matches_safe(line, "at", &[6, 5]),
        "the ca\x1b[41mt \x1b[49msat on the mat"
    );
    assert_eq!(
        formatter.highlight_matches_safe(line, "cat", &[5, 4]),
        "the c\x1b[41mat \x1b[49msat on the mat"
    );
    assert_eq!(
        formatter.highlight_matches_safe(line, "cat", &[4, 5]),
        "the \x1b[41mcat\x1b[49m\x1b[41m \x1b[49msat on the mat"
    );
}

#[test]
fn plain_form_of_a_long_line_does_not_depend_on_order_inside_the_window() {
    let formatter = LineFormatter::with_limits(20, 5);
    let line = "0123456789abcdefghijklmnopqrstuvwxyzABCD";
    assert_eq!(formatter.format_long_line_pure(line, "xx", &[10, 12, 11]), "...56789abcdefgh...");
    assert_eq!(
        formatter.format_long_line(line, "xx", &[10, 12, 11]),
        "...56789\x1b[41mab\x1b[49m\x1b[41mcd\x1b[49mefgh..."
    );
}

#[test]
fn escape_characters_that_make_no_code_survive_the_round_trip() {
    let formatter = LineFormatter::new();
    let line = "a\x1b[4b \x1b\x1b[m \x1b[412m end\x1b[41";
    let shown = formatter.format_long_line(line, "4", &[3, 13]);
    let pure = formatter.format_long_line_pure(line, "4", &[3, 13]);
    assert_eq!(pure, line);
    assert_ne!(shown, pure);
    assert_eq!(without_codes(&shown), pure);
}

#[test]
fn width_of_the_terminal_setting() {
    assert_eq!(width_from(None), 80);
    assert_eq!(width_from(Some("120")), 120);
    assert_eq!(width_from(Some("0")), 0);
    assert_eq!(width_from(Some("+5")), 5);
    assert_eq!(width_from(Some("")), 80);
    assert_eq!(width_from(Some("wide")), 80);
    assert_eq!(width_from(Some(" 120")), 80);
    assert_eq!(width_from(Some("-1")), 80);
    assert_eq!(width_from(Some("99999999999999999999999999")), 80);
    assert_eq!(width_of(Some(7)), 7);
    assert_eq!(width_of(None), 80);
}

#[test]
fn formatter_for_a_terminal() {
    let line = "0123456789abcdefghijklmnopqrstuvwxyzABCD";
    let narrow = LineFormatter::for_terminal(Some("20"));
    assert_eq!(narrow.format_long_line_pure(line, "x", &[]), "0123456789abcdefg...");
    assert_eq!(
        narrow.format_long_line_pure(line, "ab", &[10]),
        LineFormatter::with_limits(20, 20).format_long_line_pure(line, "ab", &[10])
    );
    let unset = LineFormatter::for_terminal(None);
    assert_eq!(unset.format_long_line_pure(line, "x", &[]), line);
    let odd = LineFormatter::for_terminal(Some("columns"));
    let long = "x".repeat(81);
    assert_eq!(odd.format_long_line_pure(&long, "y", &[]), format!("{}...", "x".repeat(77)));
    assert_eq!(odd.format_long_line_pure(&long, "y", &[]), LineFormatter::new().format_long_line_pure(&long, "y", &[]));
}

#[test]
fn repeated_offset_is_marked_once() {
    let formatter = LineFormatter::new();
    assert_eq!(formatter.format_long_line("abc", "b", &[1, 1]), "a\x1b[41mb\x1b[49mc");
    assert_eq!(formatter.format_long_line_pure("abc", "b", &[1, 1, 1]), "abc");
    assert_eq!(formatter.format_long_line("abc", "bc", &[2, 1, 0]), "ab\x1b[41mc\x1b[49m");
}
