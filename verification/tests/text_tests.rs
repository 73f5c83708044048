use location_finder::text::{
    chars_of, contains_chars, is_white_space_char, join_chars, same_chars, same_text, split_chars,
    string_of, trim_chars,
};

fn chars(text: &str) -> Vec<char> {
    text.chars().collect()
}

fn text(chars: Vec<char>) -> String {
    chars.into_iter().collect()
}

#[test]
fn chars_of_gives_the_characters() {
    assert_eq!(chars_of("aé東"), vec!['a', 'é', '東']);
    assert!(chars_of("").is_empty());
}

#[test]
fn string_of_builds_the_string() {
    assert_eq!(string_of(&chars("São Paulo")), "São Paulo");
    assert_eq!(string_of(&Vec::new()), "");
}

#[test]
fn join_chars_puts_the_separator_between() {
    assert_eq!(text(join_chars(&vec![chars("a"), chars("bc"), chars("d")], '_')), "a_bc_d");
    assert_eq!(text(join_chars(&vec![chars("abc")], '_')), "abc");
    assert_eq!(text(join_chars(&Vec::new(), '_')), "");
    assert_eq!(text(join_chars(&vec![chars(""), chars("")], '_')), "_");
}

#[test]
fn split_chars_agrees_with_the_standard_library() {
    for sample in ["", "a", "a|b", "|", "a||b|", "||", " a | b ", "no separator"] {
        let fields: Vec<String> = split_chars(&chars(sample), '|').into_iter().map(text).collect();
        let expected: Vec<String> = sample.split('|').map(|s| s.to_string()).collect();
        assert_eq!(fields, expected, "{:?}", sample);
    }
}

#[test]
fn white_space_agrees_with_the_standard_library() {
    for code in 0u32..=0x10FFFF {
        if let Some(c) = char::from_u32(code) {
            assert_eq!(is_white_space_char(c), c.is_whitespace(), "U+{:04X}", code);
        }
    }
}

#[test]
fn trim_chars_agrees_with_the_standard_library() {
    for sample in
        ["", " ", "  a  ", "a", "\t a b \n", "\u{a0}x\u{3000}", " \u{2003}é ", "a  ", "  a", " a\u{200b} "]
    {
        assert_eq!(text(trim_chars(&chars(sample))), sample.trim(), "{:?}", sample);
    }
}

#[test]
fn contains_chars_agrees_with_the_standard_library() {
    let samples = ["", "a", "ab", "ba", "aab", "new_york", "york", "new", "w_y", "yorks", "newyork"];
    for hay in samples {
        for needle in samples {
            assert_eq!(
                contains_chars(&chars(hay), &chars(needle)),
                hay.contains(needle),
                "{:?} in {:?}",
                needle,
                hay
            );
        }
    }
}

#[test]
fn the_empty_text_is_part_of_every_text() {
    assert!(contains_chars(&chars("bavaria"), &chars("")));
    assert!(contains_chars(&chars(""), &chars("")));
    assert!(!contains_chars(&chars(""), &chars("a")));
}

#[test]
fn same_chars_compares_texts() {
    assert!(same_chars(&chars("abc"), &chars("abc")));
    assert!(!same_chars(&chars("abc"), &chars("abd")));
    assert!(!same_chars(&chars("abc"), &chars("ab")));
    assert!(same_chars(&chars(""), &chars("")));
    assert!(same_text("United States", "United States"));
    assert!(!same_text("United States", "United Kingdom"));
    assert!(!same_text("United States", "united states"));
}
