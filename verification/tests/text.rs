use talking_clock::text::{is_space_char, normalize_whitespace, split_words};

#[test]
fn collapses_runs_and_trims() {
    assert_eq!(normalize_whitespace("  It's   twelve    am "), "It's twelve am");
    assert_eq!(normalize_whitespace("a\t\tb\nc"), "a b c");
}

#[test]
fn joins_the_words_with_single_blanks() {
    assert_eq!(normalize_whitespace("one two three"), "one two three");
    assert_eq!(normalize_whitespace("one"), "one");
}

#[test]
fn nothing_is_left_of_white_space_alone() {
    assert_eq!(normalize_whitespace(""), "");
    assert_eq!(normalize_whitespace("   "), "");
    assert_eq!(normalize_whitespace(" \t\r\n"), "");
}

#[test]
fn normalizing_twice_is_normalizing_once() {
    let samples = [
        "",
        " ",
        "a",
        " a",
        "a ",
        "  It's twelve    am",
        "It's  two oh  one pm  ",
        "\tx\u{00A0}y\u{3000}z\n",
        "é  ü",
    ];
    for s in samples.iter() {
        let once = normalize_whitespace(s);
        let twice = normalize_whitespace(&once);
        assert_eq!(twice, once);
    }
}

#[test]
fn splits_into_words() {
    assert_eq!(split_words(" It's  nine pm"), vec!["It's", "nine", "pm"]);
    assert_eq!(split_words("word"), vec!["word"]);
    assert!(split_words(" \n ").is_empty());
    assert!(split_words("").is_empty());
}

#[test]
fn splits_as_the_standard_library_does() {
    let samples = [
        "It's  two oh  one pm  ",
        "\u{0085}a\u{1680}b\u{2000}c\u{200A}d\u{2028}e\u{2029}f\u{202F}g\u{205F}h\u{3000}",
        "x\u{200B}y z",
        "\u{000B}\u{000C}q",
    ];
    for s in samples.iter() {
        let expected: Vec<String> = s.split_whitespace().map(String::from).collect();
        assert_eq!(split_words(s), expected);
    }
}

#[test]
fn white_space_is_what_the_standard_library_calls_so() {
    for code in 0..0x11_0000u32 {
        if let Some(c) = char::from_u32(code) {
            assert_eq!(is_space_char(c), c.is_whitespace());
        }
    }
}
