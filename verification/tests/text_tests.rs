use lynx_runner::text::{chars_of, contains, join_lines, same_text, split_lines};

fn strings(items: &[&str]) -> Vec<String> {
    items.iter().map(|s| s.to_string()).collect()
}

#[test]
fn join_two_lines_has_no_trailing_terminator() {
    let text = join_lines(&strings(&["print(1)", "print(2)"]));
    assert_eq!(text, "print(1)\nprint(2)");
    assert_eq!(text.as_bytes(), b"print(1)\nprint(2)");
}

#[test]
fn join_no_lines_is_empty() {
    assert_eq!(join_lines(&Vec::new()), "");
}

#[test]
fn join_one_line_is_that_line() {
    assert_eq!(join_lines(&strings(&["only"])), "only");
}

#[test]
fn join_keeps_empty_lines() {
    assert_eq!(join_lines(&strings(&["a", "", "b", ""])), "a\n\nb\n");
}

#[test]
fn join_keeps_non_ascii_text() {
    assert_eq!(join_lines(&strings(&["zażółć", "gęślą"])), "zażółć\ngęślą");
}

#[test]
fn split_empty_text_is_one_empty_piece() {
    assert_eq!(split_lines(""), strings(&[""]));
}

#[test]
fn split_at_each_terminator() {
    assert_eq!(split_lines("a\nb"), strings(&["a", "b"]));
    assert_eq!(split_lines("a\n"), strings(&["a", ""]));
    assert_eq!(split_lines("\n"), strings(&["", ""]));
    assert_eq!(split_lines("\n\nx"), strings(&["", "", "x"]));
    assert_eq!(split_lines("no terminator"), strings(&["no terminator"]));
}

#[test]
fn split_agrees_with_std() {
    for text in ["", "a", "a\nb\n", "\n\n", "żółw\nłoś\n", "x\r\ny"] {
        let expected: Vec<String> = text.split('\n').map(str::to_string).collect();
        assert_eq!(split_lines(text), expected);
    }
}

#[test]
fn join_agrees_with_std() {
    for lines in [vec![], vec!["a"], vec!["a", "b"], vec!["", ""], vec!["x\ny", "z"]] {
        let owned = strings(&lines);
        assert_eq!(join_lines(&owned), owned.join("\n"));
    }
}

#[test]
fn joining_the_pieces_gives_the_text_back() {
    for text in ["", "a", "a\nb\n", "\n\n", "line1\nline2\n<SENTINEL>\n"] {
        assert_eq!(join_lines(&split_lines(text)), text);
    }
}

#[test]
fn splitting_the_joined_lines_gives_them_back() {
    for lines in [vec![""], vec!["a"], vec!["a", "b"], vec!["", ""], vec!["print('hi')", "", "x = 1"]] {
        let owned = strings(&lines);
        assert_eq!(split_lines(&join_lines(&owned)), owned);
    }
}

#[test]
fn contains_finds_substrings() {
    assert!(contains("hello world", "lo w"));
    assert!(contains("hello world", "hello world"));
    assert!(contains("hello world", "d"));
    assert!(contains("hello world", "h"));
    assert!(contains("hello", ""));
    assert!(contains("", ""));
    assert!(contains("aab", "ab"));
}

#[test]
fn contains_rejects_what_is_absent() {
    assert!(!contains("hello", "world"));
    assert!(!contains("hello", "hello!"));
    assert!(!contains("", "a"));
    assert!(!contains("abab", "aba "));
    assert!(!contains("ab", "ba"));
}

#[test]
fn contains_agrees_with_std() {
    let hays = ["", "a", "abcabc", "łódź i łoś", "{ \"k\" : 1 }"];
    let needles = ["", "a", "bc", "cab", "ł", "oś", "\"k\"", "abcabcd"];
    for hay in hays {
        for needle in needles {
            assert_eq!(contains(hay, needle), hay.contains(needle));
        }
    }
}

#[test]
fn same_text_compares_characters() {
    assert!(same_text("alice", "alice"));
    assert!(same_text("", ""));
    assert!(!same_text("alice", "alicf"));
    assert!(!same_text("alice", "alic"));
    assert!(!same_text("", "a"));
}

#[test]
fn chars_of_lists_the_characters() {
    assert_eq!(chars_of("aż\n"), vec!['a', 'ż', '\n']);
    assert_eq!(chars_of(""), Vec::<char>::new());
}

#[test]
fn matches_at_checks_one_position() {
    let hay: Vec<char> = "hello".chars().collect();
    let needle: Vec<char> = "ll".chars().collect();
    let empty: Vec<char> = Vec::new();
    assert!(lynx_runner::text::matches_at(&hay, &needle, 2));
    assert!(!lynx_runner::text::matches_at(&hay, &needle, 1));
    assert!(!lynx_runner::text::matches_at(&hay, &needle, 4));
    assert!(!lynx_runner::text::matches_at(&hay, &needle, 7));
    assert!(lynx_runner::text::matches_at(&hay, &empty, 5));
    assert!(!lynx_runner::text::matches_at(&hay, &empty, 6));
    assert!(!lynx_runner::text::matches_at(&empty, &hay, 0));
}
