use hydra::text::{
    bytes_eq, is_whitespace, push_decimal, push_decimal_padded, split_whitespace, starts_with,
    str_eq, trim,
};

#[test]
fn white_space_is_that_of_the_standard_library() {
    for code in 0..=0x10ffffu32 {
        if let Some(c) = char::from_u32(code) {
            assert_eq!(is_whitespace(c), c.is_whitespace(), "{:?}", c);
        }
    }
}

#[test]
fn words_are_those_of_the_standard_library() {
    let texts = [
        "",
        " ",
        "a",
        " a",
        "a ",
        "  a\tb\u{3000}c \n",
        "\u{85}ä\u{a0}ö\u{2028}",
        "no-break\u{feff}words here",
    ];
    for text in texts {
        let expected: Vec<String> = text.split_whitespace().map(String::from).collect();
        assert_eq!(split_whitespace(text), expected);
    }
}

#[test]
fn trimming_is_that_of_the_standard_library() {
    let texts = ["", " ", "a", " a", "a ", "\t a b \u{3000}\n", "\u{85}ä\u{a0}", "x\u{200b} "];
    for text in texts {
        assert_eq!(trim(text), text.trim());
    }
}

#[test]
fn numbers_are_written_in_decimal() {
    for n in [0u64, 7, 9, 10, 99, 100, 101, 1000, 12345, u64::MAX] {
        let mut out = String::from("n=");
        push_decimal(&mut out, n);
        assert_eq!(out, format!("n={}", n));
    }
}

#[test]
fn numbers_are_padded_to_three_digits() {
    for n in [0u64, 7, 10, 42, 99, 100, 999, 1000, u64::MAX] {
        let mut out = String::new();
        push_decimal_padded(&mut out, n);
        assert_eq!(out, format!("{:03}", n));
    }
    let mut out = String::new();
    push_decimal_padded(&mut out, 7);
    assert_eq!(out, "007");
}

#[test]
fn bytes_and_texts_are_compared() {
    assert!(bytes_eq(b"", b""));
    assert!(bytes_eq(b"abc", b"abc"));
    assert!(!bytes_eq(b"abc", b"abd"));
    assert!(!bytes_eq(b"abc", b"ab"));
    assert!(str_eq("br", "br"));
    assert!(!str_eq("br", "Br"));
    assert!(starts_with(b"References: x", b"References:"));
    assert!(starts_with(b"abc", b""));
    assert!(!starts_with(b"Reference", b"References:"));
    assert!(!starts_with(b"StorePath:", b"References:"));
}
