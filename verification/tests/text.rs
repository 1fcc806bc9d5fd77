use jj_spr::text::{contains, read_lines, to_decimal, trim};

#[test]
fn every_white_space_is_trimmed() {
    for c in '\0'..=char::MAX {
        let mut buffer = [0u8; 4];
        let text: &str = c.encode_utf8(&mut buffer);
        assert_eq!(trim(text), text.trim(), "{:?}", c);
    }
}

#[test]
fn inner_white_space_stays() {
    assert_eq!(trim(" \ta b\u{a0}c\r\n"), "a b\u{a0}c");
    assert_eq!(trim(""), "");
    assert_eq!(trim(trim("  x  ")), "x");
}

#[test]
fn parts_of_a_text() {
    for (text, part) in [
        ("", ""),
        ("", "a"),
        ("abc", ""),
        ("abc", "abc"),
        ("abc", "abcd"),
        ("abc", "bc"),
        ("aab", "ab"),
        ("grün", "ün"),
        ("grün", "un"),
    ] {
        assert_eq!(contains(text, part), text.contains(part), "{} {}", text, part);
    }
}

#[test]
fn lines_of_a_text() {
    for text in ["", "\n", "a", "a\n", " a \r\n\r\n b\n\nc", "a\rb\n", "ä\u{2028}b\n"] {
        let expected: Vec<String> = text
            .lines()
            .map(|line| line.trim().to_string())
            .filter(|line| !line.is_empty())
            .collect();
        assert_eq!(read_lines(text), expected, "{:?}", text);
    }
}

#[test]
fn numbers_in_decimal() {
    for n in [0, 7, 10, 128, -1, -12, i32::MAX, i32::MIN] {
        assert_eq!(to_decimal(n), n.to_string());
    }
}
