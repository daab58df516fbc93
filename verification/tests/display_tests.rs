use owo_colors::OwoColorize;
use rspfind::display::DisPlay;
use rspfind::format::LineFormatter;
use rspfind::paint::without_codes;

fn cat_record() -> DisPlay {
    DisPlay::new(
        "at".to_string(),
        "notes.txt".to_string(),
        0,
        vec![5, 9, 20],
        "the cat sat on the mat".to_string(),
        "at".to_string(),
    )
}

fn green(text: &str) -> String {
    format!("\x1b[32m{}\x1b[39m", text)
}

#[test]
fn record_keeps_its_parts() {
    let record = cat_record();
    assert_eq!(record.query(), "at");
    assert_eq!(record.file_name(), "notes.txt");
    assert_eq!(record.line_index(), 0);
    assert_eq!(record.offsets(), &vec![5, 9, 20]);
    assert_eq!(record.line_content(), "the cat sat on the mat");
    assert_eq!(record.matched(), "at");
    let copy = record.clone();
    assert_eq!(copy.pure_display(), record.pure_display());
    assert_eq!(copy.offsets(), record.offsets());
}

#[test]
fn plain_report_line() {
    assert_eq!(
        cat_record().pure_display(),
        "line number: 1 position: [6-7, 10-11, 21-22] line content: the cat sat on the mat\n"
    );
}

#[test]
fn decorated_report_line() {
    let ranges = format!(
        "{}-{}, {}-{}, {}-{}",
        green("6"),
        green("7"),
        green("10"),
        green("11"),
        green("21"),
        green("22")
    );
    let expected = format!(
        "line number: {} position: [\x1b[34m{}\x1b[39m] line content: \x1b[33m{}\x1b[39m\n",
        green("1"),
        ranges,
        "the c\x1b[41mat\x1b[49m s\x1b[41mat\x1b[49m on the m\x1b[41mat\x1b[49m"
    );
    assert_eq!(cat_record().display(), expected);
}

#[test]
fn decorated_report_line_is_what_the_colour_crate_writes() {
    let record = DisPlay::new(
        "cat".to_string(),
        "notes.txt".to_string(),
        41,
        vec![4],
        "the cat".to_string(),
        "cat".to_string(),
    );
    let content = format!("the {}", "cat".on_red());
    let positions = format!("{}-{}", 5.green(), 7.green());
    let expected = format!(
        "line number: {} position: [{}] line content: {}\n",
        42.green(),
        positions.blue(),
        content.yellow()
    );
    assert_eq!(record.display(), expected);
}

#[test]
fn decorated_report_line_without_codes_is_the_plain_one() {
    let record = cat_record();
    assert_ne!(record.display(), record.pure_display());
    assert_eq!(without_codes(&record.display()), record.pure_display());
}

#[test]
fn numbers_are_written_in_decimal() {
    let record = DisPlay::new(
        "x".to_string(),
        "f".to_string(),
        122,
        vec![0, 9, 99, 1000],
        "x".to_string(),
        "x".to_string(),
    );
    assert_eq!(
        record.pure_display(),
        "line number: 123 position: [1-1, 10-10, 100-100, 1001-1001] line content: x\n"
    );
}

#[test]
fn largest_numbers_do_not_overflow() {
    let record = DisPlay::new(
        "ab".to_string(),
        "f".to_string(),
        usize::MAX,
        vec![usize::MAX],
        "ab".to_string(),
        String::new(),
    );
    let top = usize::MAX as u128;
    assert_eq!(
        record.pure_display(),
        format!(
            "line number: {} position: [{}-{}] line content: ab\n",
            top + 1,
            top + 1,
            top + 2
        )
    );
}

#[test]
fn record_without_offsets_has_an_empty_list() {
    let record = DisPlay::new(
        "x".to_string(),
        "f".to_string(),
        0,
        vec![],
        "abc".to_string(),
        String::new(),
    );
    assert_eq!(record.pure_display(), "line number: 1 position: [] line content: abc\n");
    assert_eq!(
        record.display(),
        "line number: \x1b[32m1\x1b[39m position: [\x1b[34m\x1b[39m] line content: \x1b[33mabc\x1b[39m\n"
    );
}

#[test]
fn ranges_count_the_characters_of_the_query() {
    let record = DisPlay::new(
        "wörld".to_string(),
        "f".to_string(),
        0,
        vec![6],
        "héllo wörld".to_string(),
        "wörld".to_string(),
    );
    assert_eq!(
        record.pure_display(),
        "line number: 1 position: [7-11] line content: héllo wörld\n"
    );
}

#[test]
fn report_line_for_a_given_width() {
    let line = format!("{}MATCH{}", "a".repeat(150), "b".repeat(45));
    let record = DisPlay::new(
        "MATCH".to_string(),
        "f".to_string(),
        2,
        vec![150],
        line,
        "MATCH".to_string(),
    );
    let narrow = LineFormatter::with_limits(30, 3);
    assert_eq!(
        record.pure_display_with(&narrow),
        "line number: 3 position: [151-155] line content: ...aaaMATCHbbb...\n"
    );
    assert_eq!(
        without_codes(&record.display_with(&narrow)),
        record.pure_display_with(&narrow)
    );
    assert_eq!(
        record.pure_display(),
        format!(
            "line number: 3 position: [151-155] line content: ...{}MATCH{}...\n",
            "a".repeat(20),
            "b".repeat(20)
        )
    );
}
