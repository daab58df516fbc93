use rspfind::file::{File, Format};
use rspfind::search::{find_content_in_file, scan_files, search_text, FileInput, SearchError};

fn input(name: &str, text: Option<&str>) -> FileInput {
    FileInput { name: name.to_string(), text: text.map(|t| t.to_string()) }
}

#[test]
fn one_record_for_each_line_with_the_query() {
    let mut file = File::new(
        "notes.txt".to_string(),
        Format::Text,
        "first at\nnothing\nAT last at\n".to_string(),
    );
    let found = find_content_in_file(&"at".to_string(), &mut file, false).unwrap();
    assert_eq!(found.len(), 2);
    assert_eq!(found[0].line_index(), 0);
    assert_eq!(found[0].offsets(), &vec![6]);
    assert_eq!(found[0].line_content(), "first at");
    assert_eq!(found[0].file_name(), "notes.txt");
    assert_eq!(found[0].query(), "at");
    assert_eq!(found[0].matched(), "at");
    assert_eq!(found[1].line_index(), 2);
    assert_eq!(found[1].offsets(), &vec![8]);
    assert_eq!(found[1].line_content(), "AT last at");
    assert_eq!(file.line_index(), 3);
    assert_eq!(file.next_line(), None);
}

#[test]
fn ignoring_case_keeps_the_line_and_the_match_as_they_stand() {
    let mut file = File::new("f".to_string(), Format::Text, "say AT\nAT last at".to_string());
    let found = find_content_in_file(&"At".to_string(), &mut file, true).unwrap();
    assert_eq!(found.len(), 2);
    assert_eq!(found[0].offsets(), &vec![4]);
    assert_eq!(found[0].line_content(), "say AT");
    assert_eq!(found[0].matched(), "AT");
    assert_eq!(found[0].query(), "At");
    assert_eq!(found[1].offsets(), &vec![0, 8]);
    assert_eq!(found[1].matched(), "at");
}

#[test]
fn search_goes_on_from_the_cursor() {
    let mut file = File::new("f".to_string(), Format::Text, "at\nat\nno\nat".to_string());
    assert!(file.next_line().is_some());
    let found = find_content_in_file(&"at".to_string(), &mut file, false).unwrap();
    assert_eq!(found.len(), 2);
    assert_eq!(found[0].line_index(), 0);
    assert_eq!(found[1].line_index(), 2);
    let again = find_content_in_file(&"at".to_string(), &mut file, false).unwrap();
    assert!(again.is_empty());
}

#[test]
fn empty_query_is_refused() {
    let mut file = File::new("f".to_string(), Format::Text, "at\nat".to_string());
    let refused = find_content_in_file(&String::new(), &mut file, false);
    assert!(matches!(refused, Err(SearchError::EmptyQuery)));
    assert_eq!(file.line_index(), 0);
    assert!(matches!(
        search_text(&String::new(), &"f".to_string(), &"at".to_string(), true),
        Err(SearchError::EmptyQuery)
    ));
    assert!(matches!(
        scan_files(&String::new(), &vec![input("f", Some("at"))], false),
        Err(SearchError::EmptyQuery)
    ));
}

#[test]
fn file_without_a_match_has_an_entry_without_records() {
    let files = vec![input("a.txt", Some("nothing here\nnor here\n"))];
    let found = scan_files(&"zzz".to_string(), &files, false).unwrap();
    assert_eq!(found.len(), 1);
    assert_eq!(found[0].name, "a.txt");
    assert!(found[0].matches.is_empty());
}

#[test]
fn file_that_could_not_be_read_is_passed_over() {
    let files = vec![
        input("a.txt", Some("cat")),
        input("b.txt", None),
        input("c.txt", Some("dog\ncat cat")),
    ];
    let found = scan_files(&"cat".to_string(), &files, false).unwrap();
    assert_eq!(found.len(), 2);
    assert_eq!(found[0].name, "a.txt");
    assert_eq!(found[0].matches.len(), 1);
    assert_eq!(found[1].name, "c.txt");
    assert_eq!(found[1].matches.len(), 1);
    assert_eq!(found[1].matches[0].line_index(), 1);
    assert_eq!(found[1].matches[0].offsets(), &vec![0, 4]);
}

#[test]
fn later_file_of_the_same_name_takes_the_place_of_the_earlier() {
    let files = vec![
        input("a.txt", Some("cat")),
        input("b.txt", Some("cat")),
        input("a.txt", Some("dog\ndog\ncat")),
    ];
    let found = scan_files(&"cat".to_string(), &files, false).unwrap();
    assert_eq!(found.len(), 2);
    assert_eq!(found[0].name, "a.txt");
    assert_eq!(found[0].matches[0].line_index(), 2);
    assert_eq!(found[1].name, "b.txt");
}

#[test]
fn no_file_gives_no_entry() {
    let found = scan_files(&"cat".to_string(), &vec![], false).unwrap();
    assert!(found.is_empty());
}
