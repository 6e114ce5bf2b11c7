use cordial_shell::order::{dedup, is_text_le, sort};
use cordial_shell::text::{
    chars_of, contains, find_text, has_prefix, has_suffix, join_path, join_texts, lines_of,
    parse_unsigned, split_at_each, to_decimal, trim, words_from,
};

fn text(chars: &[char]) -> String {
    chars.iter().collect()
}

fn texts(pieces: &[Vec<char>]) -> Vec<String> {
    pieces.iter().map(|piece| text(piece)).collect()
}

#[test]
fn texts_are_split_as_std_splits_them() {
    for s in ["", "a", "a\n", "a\nb", "a\r\nb\r", "\n", "\n\n", "a\n\r\n", "caf\u{e9}\nx"] {
        let lines: Vec<&str> = s.lines().collect();
        assert_eq!(texts(&lines_of(&chars_of(s))), lines, "{s:?}");
        let words: Vec<&str> = s.split_whitespace().collect();
        assert_eq!(texts(&words_from(&chars_of(s), 0)), words, "{s:?}");
        assert_eq!(trim(s), s.trim(), "{s:?}");
        let pieces: Vec<&str> = s.split('\n').collect();
        assert_eq!(texts(&split_at_each(&chars_of(s), '\n')), pieces, "{s:?}");
    }
    assert_eq!(trim("\u{3000} \u{a0}x\u{2003}\u{85}"), "x");
}

#[test]
fn texts_are_searched_as_std_searches_them() {
    for (s, needle) in [("abcab", "cab"), ("abcab", "x"), ("aab", "ab"), ("", "a"), ("a", "")] {
        assert_eq!(contains(s, needle), s.contains(needle), "{s:?} {needle:?}");
        assert_eq!(find_text(&chars_of(s), &chars_of(needle)), s.find(needle));
        assert_eq!(has_prefix(&chars_of(s), &chars_of(needle)), s.starts_with(needle));
        assert_eq!(has_suffix(&chars_of(s), &chars_of(needle)), s.ends_with(needle));
    }
}

#[test]
fn numbers_are_written_and_read() {
    for n in [0, 7, 10, 99, 1000, u64::MAX] {
        assert_eq!(to_decimal(n), n.to_string());
        assert_eq!(parse_unsigned(&chars_of(&n.to_string()), u64::MAX), Some(n));
    }
    for s in ["", "+", "-1", "1 ", "18446744073709551616", "0x1"] {
        assert_eq!(parse_unsigned(&chars_of(s), u64::MAX), s.parse::<u64>().ok(), "{s:?}");
    }
    assert_eq!(parse_unsigned(&chars_of("+12"), u64::MAX), Some(12));
    assert_eq!(parse_unsigned(&chars_of("256"), 255), None);
}

#[test]
fn lists_are_ordered_by_their_bytes_and_paths_are_joined() {
    let list = ["b", "a", "\u{e9}", "B", "a", "ab"].map(str::to_string).to_vec();
    let mut expected = list.clone();
    expected.sort();
    let sorted = sort(list);
    assert_eq!(sorted, expected);
    expected.dedup();
    assert_eq!(dedup(sorted), expected);
    assert!(is_text_le("B", "a") && is_text_le("a", "a") && !is_text_le("b", "a"));
    assert_eq!(join_texts(&vec!["a".to_string(), "b".to_string()], ", "), "a, b");
    assert_eq!(join_path("/a", "b"), "/a/b");
    assert_eq!(join_path("/a/", "b"), "/a/b");
    assert_eq!(join_path("", "b"), "b");
}
