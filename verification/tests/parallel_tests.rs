use rspfind::file::{File, Format};
use rspfind::parallel::ParallelProcessor;
use rspfind::search::{FileInput, SearchError};

fn input(name: &str, text: Option<&str>) -> FileInput {
    FileInput { name: name.to_string(), text: text.map(|t| t.to_string()) }
}

#[test]
fn unreadable_file_has_no_entry_and_counts_as_done() {
    let files = vec![
        input("a.txt", Some("a cat\n")),
        input("b.txt", None),
        input("c.txt", Some("dog\ncat and cat\n")),
    ];
    let mut processor = ParallelProcessor::new("cat".to_string());
    assert_eq!(processor.total(), 0);
    assert_eq!(processor.completed(), 0);
    let results = processor.process_directory(&files, false).unwrap();
    assert_eq!(results.len(), 2);
    assert_eq!(processor.total(), 3);
    assert_eq!(processor.completed(), 3);
    assert!(results.contains_key("a.txt"));
    assert!(!results.contains_key("b.txt"));
    let c = results.get("c.txt").unwrap();
    assert_eq!(c.len(), 1);
    assert_eq!(c[0].line_index(), 1);
    assert_eq!(c[0].offsets(), &vec![0, 8]);
    assert_eq!(c[0].file_name(), "c.txt");
}

#[test]
fn file_without_a_match_has_no_entry_in_a_directory() {
    let files = vec![input("a.txt", Some("a cat\n")), input("b.txt", Some("a dog\n"))];
    let mut processor = ParallelProcessor::new("cat".to_string());
    let results = processor.process_directory(&files, false).unwrap();
    assert_eq!(results.len(), 1);
    assert!(results.contains_key("a.txt"));
    assert!(!results.contains_key("b.txt"));
    assert_eq!(processor.completed(), 2);
}

#[test]
fn empty_directory_gives_empty_results() {
    let mut processor = ParallelProcessor::new("cat".to_string());
    let results = processor.process_directory(&vec![], true).unwrap();
    assert!(results.is_empty());
    assert_eq!(processor.total(), 0);
    assert_eq!(processor.completed(), 0);
}

#[test]
fn directory_search_can_ignore_case() {
    let files = vec![input("a.txt", Some("A CAT\n"))];
    let mut processor = ParallelProcessor::new("cat".to_string());
    assert!(processor.process_directory(&files, false).unwrap().is_empty());
    let results = processor.process_directory(&files, true).unwrap();
    assert_eq!(results.get("a.txt").unwrap()[0].offsets(), &vec![2]);
}

#[test]
fn empty_query_is_refused_for_a_directory() {
    let files = vec![input("a.txt", Some("a cat\n"))];
    let mut processor = ParallelProcessor::new(String::new());
    assert!(matches!(processor.process_directory(&files, false), Err(SearchError::EmptyQuery)));
    assert_eq!(processor.completed(), 0);
    let mut file = File::new("a.txt".to_string(), Format::Text, "a cat".to_string());
    assert!(matches!(
        processor.process_single_file(&mut file, false),
        Err(SearchError::EmptyQuery)
    ));
}

#[test]
fn single_file_is_searched_for_the_processors_query() {
    let processor = ParallelProcessor::new("cat".to_string());
    let mut file = File::new("a.txt".to_string(), Format::Text, "dog\ncat\ncat cat".to_string());
    let found = processor.process_single_file(&mut file, false).unwrap();
    assert_eq!(found.len(), 2);
    assert_eq!(found[1].offsets(), &vec![0, 4]);
}

#[test]
fn outcome_of_one_file() {
    let processor = ParallelProcessor::new("cat".to_string());
    assert!(processor.process_input(&input("x", None), false).is_none());
    assert!(processor.process_input(&input("x", Some("dog")), false).is_none());
    assert!(processor.process_input(&input("x", Some("CAT")), false).is_none());
    let found = processor.process_input(&input("x", Some("dog\ncat")), false).unwrap();
    assert_eq!(found.name, "x");
    assert_eq!(found.matches.len(), 1);
    assert_eq!(found.matches[0].line_index(), 1);
    let nothing = ParallelProcessor::new(String::new());
    assert!(nothing.process_input(&input("x", Some("cat")), false).is_none());
    assert!(nothing.process_input(&input("x", Some("cat")), true).is_none());
}

#[test]
fn outcomes_are_gathered_whatever_their_order() {
    let files = vec![
        input("a.txt", Some("a cat\n")),
        input("b.txt", None),
        input("c.txt", Some("dog\ncat and cat\n")),
        input("d.txt", Some("dog")),
    ];
    let mut processor = ParallelProcessor::new("cat".to_string());
    let forwards: Vec<_> = files.iter().map(|f| processor.process_input(f, false)).collect();
    let backwards: Vec<_> = files.iter().rev().map(|f| processor.process_input(f, false)).collect();
    let first = processor.gather(forwards);
    assert_eq!(processor.total(), 4);
    assert_eq!(processor.completed(), 4);
    let second = processor.gather(backwards);
    let whole = processor.process_directory(&files, false).unwrap();
    for results in [&first, &second, &whole] {
        assert_eq!(results.len(), 2);
        assert_eq!(results.get("a.txt").unwrap().len(), 1);
        assert_eq!(results.get("c.txt").unwrap()[0].offsets(), &vec![0, 8]);
        assert!(!results.contains_key("b.txt"));
        assert!(!results.contains_key("d.txt"));
    }
}

#[test]
fn later_outcome_of_the_same_name_takes_the_place_of_the_earlier() {
    let files = vec![input("a.txt", Some("cat")), input("a.txt", Some("dog\ncat"))];
    let mut processor = ParallelProcessor::new("cat".to_string());
    let results = processor.process_directory(&files, false).unwrap();
    assert_eq!(results.len(), 1);
    assert_eq!(results.get("a.txt").unwrap()[0].line_index(), 1);
    assert_eq!(processor.completed(), 2);
}
