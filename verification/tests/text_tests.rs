use dlc_decrypter::text::{chars_of, copy_range, find_from, split, stands_at, text_of};

fn chars(s: &str) -> Vec<char> {
    s.chars().collect()
}

fn pieces(text: &str, delim: &str) -> Vec<String> {
    split(&chars(text), &chars(delim)).iter().map(|p| p.iter().collect::<String>()).collect()
}

#[test]
fn chars_of_gives_each_character() {
    assert_eq!(chars_of("a<b"), vec!['a', '<', 'b']);
    assert_eq!(chars_of(""), Vec::<char>::new());
    assert_eq!(chars_of("h\u{e9}\u{20ac}"), vec!['h', '\u{e9}', '\u{20ac}']);
}

#[test]
fn text_of_is_the_inverse_of_chars_of() {
    for s in ["", "plain", "gr\u{fc}\u{df}e", "\u{1f600} <file>", "a\0b"] {
        assert_eq!(text_of(&chars_of(s)), s);
    }
    assert_eq!(text_of(&['o', 'k']), "ok");
}

#[test]
fn copy_range_takes_the_half_open_range() {
    let text = chars("abcdef");
    assert_eq!(copy_range(&text, 1, 4), chars("bcd"));
    assert_eq!(copy_range(&text, 0, 6), text);
    assert_eq!(copy_range(&text, 3, 3), Vec::<char>::new());
    assert_eq!(copy_range(&text, 6, 6), Vec::<char>::new());
}

#[test]
fn stands_at_compares_in_place() {
    let text = chars("<file><url>");
    assert!(stands_at(&text, &chars("<file>"), 0));
    assert!(stands_at(&text, &chars("<url>"), 6));
    assert!(!stands_at(&text, &chars("<url>"), 5));
    assert!(!stands_at(&text, &chars("<url>"), 7));
    assert!(!stands_at(&text, &chars("<url>"), 100));
    assert!(!stands_at(&text, &chars("<file><url>!"), 0));
    assert!(stands_at(&text, &[], 11));
    assert!(!stands_at(&text, &[], 12));
}

#[test]
fn find_from_gives_the_first_occurrence() {
    let text = chars("ab<x<y");
    let lt = chars("<");
    assert_eq!(find_from(&text, &lt, 0), Some(2));
    assert_eq!(find_from(&text, &lt, 2), Some(2));
    assert_eq!(find_from(&text, &lt, 3), Some(4));
    assert_eq!(find_from(&text, &lt, 5), None);
    assert_eq!(find_from(&text, &lt, 6), None);
    assert_eq!(find_from(&text, &lt, 7), None);
    assert_eq!(find_from(&text, &chars("<y"), 0), Some(4));
    assert_eq!(find_from(&text, &chars("<z"), 0), None);
}

#[test]
fn find_from_with_long_or_empty_pattern() {
    let text = chars("abc");
    assert_eq!(find_from(&text, &chars("abcd"), 0), None);
    assert_eq!(find_from(&text, &chars("abc"), 0), Some(0));
    assert_eq!(find_from(&text, &chars("abc"), 1), None);
    assert_eq!(find_from(&text, &[], 0), Some(0));
    assert_eq!(find_from(&text, &[], 3), Some(3));
    assert_eq!(find_from(&text, &[], 4), None);
    assert_eq!(find_from(&[], &chars("a"), 0), None);
}

#[test]
fn find_from_counts_characters_not_bytes() {
    let text = chars("\u{e9}\u{20ac}<");
    assert_eq!(find_from(&text, &chars("<"), 0), Some(2));
}

#[test]
fn split_cuts_at_each_delimiter() {
    assert_eq!(pieces("a<b", "<"), vec!["a", "b"]);
    assert_eq!(pieces("a<b<c", "<"), vec!["a", "b", "c"]);
    assert_eq!(pieces("one<file>two<file>three", "<file>"), vec!["one", "two", "three"]);
}

#[test]
fn split_keeps_empty_pieces() {
    assert_eq!(pieces("<a", "<"), vec!["", "a"]);
    assert_eq!(pieces("a<", "<"), vec!["a", ""]);
    assert_eq!(pieces("a<<b", "<"), vec!["a", "", "b"]);
    assert_eq!(pieces("<", "<"), vec!["", ""]);
    assert_eq!(pieces("", "<"), vec![""]);
}

#[test]
fn split_without_delimiter_is_one_piece() {
    assert_eq!(pieces("no delimiter here", "<file>"), vec!["no delimiter here"]);
    assert_eq!(pieces("<file", "<file>"), vec!["<file"]);
}

#[test]
fn split_takes_occurrences_from_the_left_without_overlap() {
    assert_eq!(pieces("aaa", "aa"), vec!["", "a"]);
    assert_eq!(pieces("aaaa", "aa"), vec!["", "", ""]);
    assert_eq!(pieces("xabab", "ab"), vec!["x", "", ""]);
}

#[test]
fn split_on_empty_delimiter_splits_nothing() {
    assert_eq!(pieces("abc", ""), vec!["abc"]);
    assert_eq!(pieces("", ""), vec![""]);
}

#[test]
fn split_agrees_with_the_standard_split() {
    let texts = [
        "",
        "<",
        "<<",
        "a<b<c",
        "<file><url>x</url></file><file></file>",
        "head<file>one<file>two",
        "<file><file><file>",
        "<fil<file>e>",
        "gr\u{fc}n<file>bl\u{e4}u<",
        "<file",
    ];
    for text in texts {
        for delim in ["<", "<file>", "</", "e>"] {
            let expected: Vec<String> = text.split(delim).map(|p| p.to_string()).collect();
            assert_eq!(pieces(text, delim), expected, "text {:?} delimiter {:?}", text, delim);
        }
    }
}

#[test]
fn joining_the_pieces_gives_the_text_back() {
    for text in ["", "<", "a<b<c", "x<file>y<file>", "<file><file>", "aaaa", "gr\u{fc}n<bl\u{e4}u"] {
        for delim in ["<", "<file>", "aa", "\u{fc}"] {
            let parts = pieces(text, delim);
            assert_eq!(parts.join(delim), text);
            for (i, part) in parts.iter().enumerate() {
                assert!(!part.contains(delim), "piece {} of {:?} on {:?}", i, text, delim);
            }
        }
    }
}
