use brandybox::commit::warning_message;
use brandybox::text::{
    chars_of, contains_chars, join3, matches_at, push_decimal, str_lt, string_of, trim,
    trim_end_of,
};

#[test]
fn decimal_numerals() {
    for (n, want) in [
        (0u64, "0"),
        (7, "7"),
        (10, "10"),
        (99, "99"),
        (100, "100"),
        (1203, "1203"),
        (u64::MAX, "18446744073709551615"),
    ] {
        let mut s = String::from("n=");
        push_decimal(&mut s, n);
        assert_eq!(s, format!("n={}", want));
    }
}

#[test]
fn lexicographic_order_is_that_of_strings() {
    let words = ["", "a", "ab", "b", "a/b", "A", "ä", "z", "日本", "a\u{10FFFF}", "\u{E000}"];
    for a in words {
        for b in words {
            assert_eq!(str_lt(a, b), a < b, "{:?} < {:?}", a, b);
        }
    }
}

#[test]
fn chars_round_trip() {
    let v = chars_of("héllo/wörld");
    assert_eq!(v.len(), 11);
    assert_eq!(string_of(&v, 0, v.len()), "héllo/wörld");
    assert_eq!(string_of(&v, 6, 11), "wörld");
    assert_eq!(string_of(&v, 3, 3), "");
}

#[test]
fn search_in_text() {
    let hay = chars_of("HTTP status client error (404 Not Found)");
    assert!(contains_chars(&hay, &chars_of("404")));
    assert!(contains_chars(&hay, &chars_of("")));
    assert!(contains_chars(&hay, &chars_of("HTTP")));
    assert!(contains_chars(&hay, &chars_of("Found)")));
    assert!(!contains_chars(&hay, &chars_of("405")));
    assert!(!contains_chars(&chars_of("40"), &chars_of("404")));
    assert!(matches_at(&hay, &chars_of("status"), 5));
    assert!(!matches_at(&hay, &chars_of("status"), 4));
    assert!(!matches_at(&hay, &chars_of("Found)x"), 34));
    assert!(matches_at(&hay, &chars_of(""), hay.len()));
    assert!(!matches_at(&hay, &chars_of(""), hay.len() + 1));
}

#[test]
fn trim_agrees_with_the_standard_library() {
    let samples = [
        "",
        " ",
        "  a  ",
        "\t\r\n x y \u{a0}",
        "\u{3000}wide\u{2003}",
        "\u{85}nel\u{1680}",
        "\u{200b}zero width stays\u{200b}",
        "\u{2028}\u{2029}\u{202f}\u{205f}x",
        "\u{b}\u{c}x\u{1c}",
        "no-space",
        "\u{180e}mongolian",
    ];
    for s in samples {
        assert_eq!(trim(s), s.trim(), "{:?}", s);
    }
    for code in 0u32..0x3100 {
        if let Some(c) = char::from_u32(code) {
            let s = format!("{}x{}", c, c);
            assert_eq!(trim(&s), s.trim(), "U+{:04X}", code);
        }
    }
}

#[test]
fn trimming_one_character() {
    assert_eq!(trim_end_of("http://host///", '/'), "http://host");
    assert_eq!(trim_end_of("http://host", '/'), "http://host");
    assert_eq!(trim_end_of("///", '/'), "");
}

#[test]
fn joining() {
    assert_eq!(join3("Upload ", "a/b", ": "), "Upload a/b: ");
    assert_eq!(join3("", "", ""), "");
}

#[test]
fn warning_messages() {
    assert_eq!(warning_message(0, 0), None);
    assert_eq!(
        warning_message(3, 0),
        Some("3 download(s) skipped (permission denied or file gone on server)".to_string())
    );
    assert_eq!(
        warning_message(0, 12),
        Some("12 upload(s) skipped (files removed during sync)".to_string())
    );
    assert_eq!(
        warning_message(1, 2),
        Some(
            "1 download(s) skipped (permission denied or file gone on server); 2 upload(s) skipped (files removed during sync)"
                .to_string()
        )
    );
}
