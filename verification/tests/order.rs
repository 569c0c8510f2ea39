use xsd_model::order::find_upper_bound;
use xsd_model::text::{chars_le, chars_of, has_prefix, matches_ignore_ascii_case, str_le};

fn chars(s: &str) -> Vec<char> {
    s.chars().collect()
}

#[test]
fn a_text_is_read_character_by_character() {
    assert_eq!(chars_of(""), Vec::<char>::new());
    assert_eq!(chars_of("a\u{e4}\u{1f600}z"), vec!['a', '\u{e4}', '\u{1f600}', 'z']);
}

#[test]
fn names_compare_as_texts_do() {
    let samples = [
        "", "a", "A", "ab", "aB", "b", "B", "Z", "z", "abc", "abd", "ab ", "\u{e4}", "\u{c4}",
        "a\u{e4}", "\u{1f600}", "\u{ffff}", "Invoice", "InvoiceLine", "Account",
    ];
    for a in samples {
        for b in samples {
            assert_eq!(str_le(a, b), a <= b, "{:?} {:?}", a, b);
            assert_eq!(chars_le(&chars(a), &chars(b)), a <= b, "{:?} {:?}", a, b);
        }
    }
}

#[test]
fn words_are_matched_whatever_their_case() {
    assert!(matches_ignore_ascii_case(&chars("GuId"), "guid"));
    assert!(matches_ignore_ascii_case(&chars("xs:dateTime"), "XS:DATETIME"));
    assert!(matches_ignore_ascii_case(&chars(""), ""));
    assert!(!matches_ignore_ascii_case(&chars("guid "), "guid"));
    assert!(!matches_ignore_ascii_case(&chars("gu1d"), "guid"));
    assert!(!matches_ignore_ascii_case(&chars("\u{e4}"), "\u{c4}"));
    assert!(!matches_ignore_ascii_case(&chars("@"), "`"));
    assert!(!matches_ignore_ascii_case(&chars("["), "{"));
}

#[test]
fn prefixes_are_exact() {
    assert!(has_prefix(&chars("ArrayOfGuid"), "ArrayOf"));
    assert!(has_prefix(&chars("ArrayOf"), "ArrayOf"));
    assert!(has_prefix(&chars("anything"), ""));
    assert!(!has_prefix(&chars("Array"), "ArrayOf"));
    assert!(!has_prefix(&chars("arrayOfGuid"), "ArrayOf"));
    assert!(!has_prefix(&chars(""), "xs"));
}

#[test]
fn the_upper_bound_is_behind_the_equal_names() {
    let keys: Vec<Vec<char>> = ["a", "b", "b", "d"].iter().map(|s| chars(s)).collect();
    assert_eq!(find_upper_bound(&keys, &chars("")), 0);
    assert_eq!(find_upper_bound(&keys, &chars("a")), 1);
    assert_eq!(find_upper_bound(&keys, &chars("b")), 3);
    assert_eq!(find_upper_bound(&keys, &chars("c")), 3);
    assert_eq!(find_upper_bound(&keys, &chars("d")), 4);
    assert_eq!(find_upper_bound(&keys, &chars("e")), 4);
    assert_eq!(find_upper_bound(&Vec::new(), &chars("e")), 0);
}
