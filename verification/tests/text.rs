use pagesmith::text::line_end;
use pagesmith::text::matches_at;
use pagesmith::text::push_all;
use pagesmith::text::replace_all;
use pagesmith::text::same_text;
use pagesmith::text::slice_string;
use pagesmith::text::split_lines;
use pagesmith::text::to_chars;
use pagesmith::text::to_string;

fn replace(text: &str, pattern: &str, with: &str) -> String {
    to_string(&replace_all(&to_chars(text), &to_chars(pattern), &to_chars(with)))
}

#[test]
fn chars_and_back() {
    let chars = to_chars("a\u{2615}b");
    assert_eq!(chars, vec!['a', '\u{2615}', 'b']);
    assert_eq!(to_string(&chars), "a\u{2615}b");
    assert_eq!(to_chars(""), Vec::<char>::new());
}

#[test]
fn push_all_appends() {
    let mut out = vec!['a'];
    push_all(&mut out, &['b', 'c']);
    assert_eq!(out, vec!['a', 'b', 'c']);
}

#[test]
fn same_text_compares_characters() {
    assert!(same_text("rust", "rust"));
    assert!(!same_text("rust", "Rust"));
    assert!(!same_text("rust", "rus"));
    assert!(same_text("", ""));
}

#[test]
fn matches_at_finds_the_pattern_only_where_it_stands() {
    let text = to_chars("a&lt;b");
    let pattern = to_chars("&lt;");
    assert!(matches_at(&text, &pattern, 1));
    assert!(!matches_at(&text, &pattern, 0));
    assert!(!matches_at(&text, &pattern, 2));
    assert!(!matches_at(&text, &pattern, 3));
    assert!(!matches_at(&text, &pattern, 100));
    assert!(matches_at(&text, &[], 6));
}

#[test]
fn replace_all_replaces_each_occurrence() {
    assert_eq!(replace("a&lt;b&lt;c", "&lt;", "<"), "a<b<c");
    assert_eq!(replace("&lt;&lt;", "&lt;", "<"), "<<");
    assert_eq!(replace("no match", "&lt;", "<"), "no match");
    assert_eq!(replace("", "&lt;", "<"), "");
}

#[test]
fn replace_all_goes_from_the_left_without_overlap() {
    assert_eq!(replace("aaa", "aa", "b"), "ba");
    assert_eq!(replace("aaaa", "aa", "b"), "bb");
}

#[test]
fn replace_all_does_not_search_what_it_put_in() {
    assert_eq!(replace("ab", "a", "aa"), "aab");
    assert_eq!(replace("&amp;lt;", "&amp;", "&"), "&lt;");
}

#[test]
fn replace_all_with_empty_pattern_changes_nothing() {
    assert_eq!(replace("abc", "", "x"), "abc");
}

#[test]
fn replace_all_cuts_a_partial_match_at_the_end() {
    assert_eq!(replace("a&l", "&lt;", "<"), "a&l");
}

#[test]
fn slice_string_takes_the_range() {
    let text = to_chars("hello");
    assert_eq!(slice_string(&text, 1, 3), "el");
    assert_eq!(slice_string(&text, 2, 2), "");
    assert_eq!(slice_string(&text, 0, 5), "hello");
}

#[test]
fn line_end_stops_behind_the_line_feed() {
    let text = to_chars("ab\ncd");
    assert_eq!(line_end(&text, 0), 3);
    assert_eq!(line_end(&text, 3), 5);
    assert_eq!(line_end(&text, 5), 5);
    assert_eq!(line_end(&text, 2), 3);
}

#[test]
fn split_lines_keeps_the_endings() {
    assert_eq!(split_lines(&to_chars("a\nb\n")), vec!["a\n", "b\n"]);
    assert_eq!(split_lines(&to_chars("a\nb")), vec!["a\n", "b"]);
    assert_eq!(split_lines(&to_chars("\n\n")), vec!["\n", "\n"]);
    assert_eq!(split_lines(&to_chars("a\r\nb")), vec!["a\r\n", "b"]);
    assert_eq!(split_lines(&to_chars("")), Vec::<String>::new());
}

#[test]
fn split_lines_join_to_the_text() {
    let text = "fn main() {\n    println!(\"hi\");\n}\n\ntail";
    let lines = split_lines(&to_chars(text));
    assert_eq!(lines.len(), 5);
    assert_eq!(lines.concat(), text);
    assert!(lines.iter().all(|line| !line.is_empty()));
}
