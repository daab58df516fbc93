use rspfind::locate::{find_occurrences, locate};

#[test]
fn cat_sat_mat() {
    let line = "the cat sat on the mat";
    assert_eq!(locate(line, "at", false), vec![5, 9, 20]);
    assert_eq!(&line[5..7], "at");
    assert_eq!(&line[9..11], "at");
    assert_eq!(&line[20..22], "at");
}

#[test]
fn occurrences_do_not_overlap() {
    assert_eq!(locate("aaaa", "aa", false), vec![0, 2]);
    assert_eq!(locate("aaaaa", "aa", false), vec![0, 2]);
    assert_eq!(locate("abababa", "aba", false), vec![0, 4]);
}

#[test]
fn offsets_rise_and_each_holds_the_query() {
    let line = "one fish two fish red fish blue fish";
    let query = "fish";
    let found = locate(line, query, false);
    assert_eq!(found, vec![4, 13, 22, 32]);
    let chars: Vec<char> = line.chars().collect();
    for pair in found.windows(2) {
        assert!(pair[0] < pair[1]);
        assert!(pair[1] >= pair[0] + query.chars().count());
    }
    for &at in &found {
        let here: String = chars[at..at + 4].iter().collect();
        assert_eq!(here, query);
    }
}

#[test]
fn no_occurrence_gives_no_offset() {
    assert_eq!(locate("the cat", "dog", false), Vec::<usize>::new());
    assert_eq!(locate("", "dog", false), Vec::<usize>::new());
    assert_eq!(locate("do", "dog", false), Vec::<usize>::new());
}

#[test]
fn empty_query_occurs_nowhere() {
    assert_eq!(locate("the cat", "", false), Vec::<usize>::new());
    assert_eq!(locate("the cat", "", true), Vec::<usize>::new());
    assert_eq!(find_occurrences("", ""), Vec::<usize>::new());
}

#[test]
fn whole_line_is_an_occurrence() {
    assert_eq!(locate("dog", "dog", false), vec![0]);
    assert_eq!(locate("x", "x", false), vec![0]);
}

#[test]
fn case_matters_unless_it_is_ignored() {
    let line = "Hello HELLO hello";
    assert_eq!(locate(line, "hello", false), vec![12]);
    assert_eq!(locate(line, "hello", true), vec![0, 6, 12]);
    assert_eq!(locate(line, "HELLO", true), vec![0, 6, 12]);
    assert_eq!(locate("ABC", "b", true), vec![1]);
    assert_eq!(locate("ABC", "b", false), Vec::<usize>::new());
}

#[test]
fn offsets_count_characters() {
    assert_eq!(locate("äöü at", "at", false), vec![4]);
    assert_eq!(locate("ÄÖÜ AT", "at", true), vec![4]);
    assert_eq!(locate("naïve naïve", "ï", false), vec![2, 8]);
}

#[test]
fn find_occurrences_takes_both_texts_as_they_are() {
    assert_eq!(find_occurrences("Aa aA", "a"), vec![1, 3]);
    assert_eq!(find_occurrences("a.b.c", "."), vec![1, 3]);
}

#[test]
fn offsets_count_the_lower_case_line_where_case_is_ignored() {
    let line = "\u{130}x";
    assert_eq!(line.chars().count(), 2);
    assert_eq!(line.to_lowercase().chars().count(), 3);
    assert_eq!(locate(line, "x", true), vec![2]);
    assert_eq!(locate(line, "x", false), vec![1]);
}
