//! Text functions, held against those of the standard library.

use nomopractic::text::{
    char_is_space, contains, decimal, eq_ignore_ascii_case, find_char, hex_byte, is_decimal, join,
    lines,
    parse_unsigned, same_text, trim, trim_start,
};

const SAMPLES: [&str; 14] = [
    "",
    " ",
    "a",
    "  two words \t",
    "\u{3000}wide\u{2003}",
    "no\r\nnewline\r",
    "one\ntwo\n",
    "\n\nthree\n\n",
    "\r\n\r\r\n",
    "ÄÖÜ äöü ß",
    "x\u{85}y",
    "\u{feff}mark",
    "last line without end",
    "a\rb\nc",
];

#[test]
fn white_space_is_that_of_unicode() {
    for c in '\0'..=char::MAX {
        assert_eq!(char_is_space(c), c.is_whitespace(), "{c:?}");
    }
}

#[test]
fn trimming_matches_std() {
    for s in SAMPLES {
        assert_eq!(trim(s), s.trim());
        assert_eq!(trim_start(s), s.trim_start());
    }
}

#[test]
fn lines_match_std() {
    for s in SAMPLES {
        let expected: Vec<&str> = s.lines().collect();
        assert_eq!(lines(s), expected, "{s:?}");
    }
}

#[test]
fn searching_matches_std() {
    for s in SAMPLES {
        for needle in ["", "a", "o", "two", "\n", "ß", "line"] {
            assert_eq!(contains(s, needle), s.contains(needle), "{s:?} {needle:?}");
        }
        let chars: Vec<char> = s.chars().collect();
        assert_eq!(find_char(&chars, 'o', 0), chars.iter().position(|c| *c == 'o'));
    }
    let chars: Vec<char> = "abcabc".chars().collect();
    assert_eq!(find_char(&chars, 'b', 2), Some(4));
    assert_eq!(find_char(&chars, 'b', 5), None);
}

#[test]
fn numerals_match_std() {
    for s in [
        "", "0", "7", "007", "255", "256", "+1", "+", "-1", "-0", " 1", "1 ", "1_0", "ff", "FF", "0x1", "8",
        "18446744073709551615", "18446744073709551616", "99999999999999999999999999", "٣",
    ] {
        assert_eq!(parse_unsigned(s, 10, 255), s.parse::<u8>().ok().map(u64::from), "{s}");
        assert_eq!(parse_unsigned(s, 10, u64::MAX), s.parse::<u64>().ok(), "{s}");
        assert_eq!(
            parse_unsigned(s, 16, 255),
            u8::from_str_radix(s, 16).ok().map(u64::from),
            "{s}"
        );
        assert_eq!(
            parse_unsigned(s, 8, u32::MAX as u64),
            u32::from_str_radix(s, 8).ok().map(u64::from),
            "{s}"
        );
    }
}

#[test]
fn decimals_match_std_and_read_back() {
    for n in [0, 1, 9, 10, 99, 100, 12345, u64::MAX - 1, u64::MAX] {
        assert_eq!(decimal(n), n.to_string());
        assert_eq!(parse_unsigned(&decimal(n), 10, u64::MAX), Some(n));
    }
}

#[test]
fn bytes_in_hexadecimal() {
    for b in 0..=255u8 {
        assert_eq!(hex_byte(b), format!("0x{b:02x}"));
    }
}

#[test]
fn comparing_matches_std() {
    for a in ["Mic", "mic", "MIC", "", "Mi", "ä", "Ä", "[", "{"] {
        for b in ["Mic", "mic", "MIC", "", "Mi", "ä", "Ä", "[", "{"] {
            assert_eq!(eq_ignore_ascii_case(a, b), a.eq_ignore_ascii_case(b));
            assert_eq!(same_text(a, b), a == b);
        }
    }
}

#[test]
fn joining_matches_std() {
    let none: Vec<String> = Vec::new();
    assert_eq!(join(&none, ", "), "");
    let one = vec!["a".to_string()];
    assert_eq!(join(&one, ", "), "a");
    let three = vec!["a".to_string(), String::new(), "c".to_string()];
    assert_eq!(join(&three, "; "), three.join("; "));
}

#[test]
fn decimal_numerals_of_any_value() {
    for s in ["0", "84", "+7", "99999999999999999999999999"] {
        assert!(is_decimal(s), "{s}");
    }
    for s in ["", "+", "-1", "1 ", " 1", "a", "1.0", "++1", "٣"] {
        assert!(!is_decimal(s), "{s}");
    }
}
