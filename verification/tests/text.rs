use rlm::text::{
    char_slice, chars_of, contains, copy_opt, copy_strings, decimal_of, join, lines, padded_of, parse_i64, parse_u16,
    parse_u32, signed_decimal_of, split_char, starts_of_lines, starts_with, strip_prefix, trim, truncate, NumberError,
};

fn samples() -> Vec<&'static str> {
    vec![
        "", " ", "a", " a ", "\t a b \r\n", "\u{a0}x\u{3000}", "\n", "\r\n", "a\n", "a\r\nb", "a\r\n\r\nb\n", "\r", "a\r",
        "\u{85}y\u{2028}", "äöü", "a\n\nb", "?", "a?b?c", "??", "x&y", "\u{b}z\u{c}", "\u{200b}w", "a\u{1680}", "\u{feff}q",
    ]
}

#[test]
fn short_text_is_kept() {
    assert_eq!(truncate("abc", 3), "abc");
    assert_eq!(truncate("", 0), "");
}

#[test]
fn long_text_is_cut_with_a_note() {
    assert_eq!(truncate("abcdef", 2), "ab\n...[truncated 2 of 6 chars]");
    assert_eq!(truncate("äöü", 0), "\n...[truncated 0 of 3 chars]");
    assert_eq!(truncate("äöü", 2), "äö\n...[truncated 2 of 3 chars]");
}

#[test]
fn a_cut_text_is_bounded_by_its_cap_and_a_note() {
    let long = "x".repeat(10_000);
    let cut = truncate(&long, 500);
    assert!(cut.chars().count() <= 500 + 66);
    assert_eq!(cut.chars().take(500).collect::<String>(), "x".repeat(500));
}

#[test]
fn numbers_are_written_in_decimal() {
    for n in [0u64, 1, 9, 10, 99, 100, 1_000_000, u64::MAX] {
        assert_eq!(decimal_of(n), format!("{n}"));
        assert_eq!(padded_of(n, 6), format!("{n:06}"));
    }
    for n in [0i32, -1, 7, -10, i32::MAX, i32::MIN] {
        assert_eq!(signed_decimal_of(n), format!("{n}"));
    }
}

#[test]
fn unsigned_numbers_are_read_as_usual() {
    for s in [
        "", "0", "7", "+7", "-7", "+", "-", "65535", "65536", "99999999", "4294967295", "4294967296", "12a", "a12", " 1", "1 ",
        "00012", "+-1", "999999999999999999999999x", "٣", "1_000",
    ] {
        match (parse_u16(s), s.parse::<u16>()) {
            (Ok(a), Ok(b)) => assert_eq!(a, b),
            (Err(a), Err(b)) => assert_eq!(a.message(), b.to_string()),
            _ => panic!("{s}"),
        }
        match (parse_u32(s), s.parse::<u32>()) {
            (Ok(a), Ok(b)) => assert_eq!(a, b),
            (Err(a), Err(b)) => assert_eq!(a.message(), b.to_string()),
            _ => panic!("{s}"),
        }
    }
}

#[test]
fn number_errors_are_told_apart() {
    assert_eq!(parse_u16(""), Err(NumberError::Empty));
    assert_eq!(parse_u16("x"), Err(NumberError::InvalidDigit));
    assert_eq!(parse_u16("70000"), Err(NumberError::TooLarge));
}

#[test]
fn signed_numbers_are_read_as_usual() {
    for s in [
        "", "0", "-0", "5", "+5", "-5", "+", "-", "--5", "9223372036854775807", "9223372036854775808",
        "-9223372036854775808", "-9223372036854775809", "99999999999999999999999999", "1x", "-1", "007",
    ] {
        assert_eq!(parse_i64(s), s.parse::<i64>().ok(), "{s}");
    }
}

#[test]
fn trimming_is_as_usual() {
    for s in samples() {
        assert_eq!(trim(s), s.trim(), "{s:?}");
    }
}

#[test]
fn lines_are_as_usual() {
    for s in samples() {
        assert_eq!(lines(s), s.lines().collect::<Vec<_>>(), "{s:?}");
    }
}

#[test]
fn lines_stand_at_their_starts() {
    for s in samples() {
        let starts = starts_of_lines(s);
        assert_eq!(starts.len(), lines(s).len(), "{s:?}");
        for (at, line) in starts.iter().zip(lines(s)) {
            assert_eq!(char_slice(s, *at as i64, line.chars().count() as i64), line, "{s:?}");
        }
    }
    assert_eq!(starts_of_lines("a\r\nb\n\nc"), vec![0, 3, 5, 6]);
}

#[test]
fn splitting_is_as_usual() {
    for s in samples() {
        assert_eq!(split_char(s, '?'), s.split('?').collect::<Vec<_>>(), "{s:?}");
    }
}

#[test]
fn searching_is_as_usual() {
    for s in samples() {
        for part in ["", "a", "b", "?b", "\r\n", "äö", "zz"] {
            assert_eq!(contains(s, part), s.contains(part), "{s:?} {part:?}");
            assert_eq!(starts_with(s, part), s.starts_with(part), "{s:?} {part:?}");
            assert_eq!(strip_prefix(s, part).as_deref(), s.strip_prefix(part), "{s:?} {part:?}");
        }
    }
}

#[test]
fn slices_count_characters() {
    let s = "äbcdé";
    assert_eq!(char_slice(s, 0, 2), "äb");
    assert_eq!(char_slice(s, 3, 10), "dé");
    assert_eq!(char_slice(s, -4, 1), "ä");
    assert_eq!(char_slice(s, 1, -1), "");
    assert_eq!(char_slice(s, 9, 1), "");
    assert_eq!(char_slice(s, i64::MAX, i64::MAX), "");
    assert_eq!(char_slice(s, i64::MIN, i64::MAX), s);
}

#[test]
fn pieces_are_joined() {
    assert_eq!(join(&vec![], ", "), "");
    assert_eq!(join(&vec!["a".to_string()], ", "), "a");
    assert_eq!(join(&vec!["a".to_string(), "".to_string(), "b".to_string()], ", "), "a, , b");
}

#[test]
fn copies_are_equal() {
    assert_eq!(chars_of("aé"), vec!['a', 'é']);
    assert_eq!(copy_strings(&vec!["a".to_string()]), vec!["a".to_string()]);
    assert_eq!(copy_opt(&Some("a".to_string())), Some("a".to_string()));
    assert_eq!(copy_opt(&None), None);
}
