use typ2tex::strings::{from_chars, replace, to_chars, trim, trim_end, whitespace};

#[test]
fn characters_go_to_a_vector_and_back() {
    let text = "aé𝛼\n";
    let chars = to_chars(text);
    assert_eq!(chars, vec!['a', 'é', '𝛼', '\n']);
    assert_eq!(from_chars(&chars, 0, 4), text);
    assert_eq!(from_chars(&chars, 1, 3), "é𝛼");
    assert_eq!(from_chars(&chars, 2, 2), "");
    assert!(to_chars("").is_empty());
}

#[test]
fn replace_agrees_with_std() {
    let cases = [
        ("", "a", "b"),
        ("a", "a", "b"),
        ("aaa", "aa", "b"),
        ("aaaa", "aa", "b"),
        ("abcabc", "bc", ""),
        ("abcabc", "abcabc", "x"),
        ("abcabc", "abcabcd", "x"),
        ("hello", "l", "ll"),
        ("ababa", "aba", "c"),
        ("é𝛼é", "é", "e"),
        ("x", "", "-"),
        ("abc", "", "-"),
        ("", "", "-"),
        ("", "", ""),
        ("abc", "", ""),
        ("identifier1identifier1identifier", "identifier1identifier", "X"),
    ];
    for (text, from, to) in cases {
        assert_eq!(replace(text, from, to), text.replace(from, to));
    }
}

#[test]
fn replace_takes_matches_from_the_left_without_overlap() {
    assert_eq!(replace("aaa", "aa", "b"), "ba");
    assert_eq!(replace("ababa", "aba", "c"), "cba");
    assert_eq!(replace("abc", "", "-"), "-a-b-c-");
    assert_eq!(replace("", "", "-"), "-");
}

#[test]
fn white_space_is_what_std_takes_for_it() {
    for code in 0..0x3100u32 {
        if let Some(c) = char::from_u32(code) {
            assert_eq!(whitespace(c), c.is_whitespace());
        }
    }
    assert!(!whitespace('\u{feff}'));
    assert!(!whitespace('\u{200b}'));
    assert!(!whitespace('𝛼'));
}

#[test]
fn trim_agrees_with_std() {
    let cases = [
        "",
        " ",
        "a",
        "  a  ",
        "\t\na b\r\n",
        "\u{a0}x\u{3000}",
        "\u{2003} \u{85}",
        "a \u{200b} ",
        " é ",
    ];
    for text in cases {
        assert_eq!(trim(text), text.trim());
        assert_eq!(trim_end(text), text.trim_end());
    }
}
