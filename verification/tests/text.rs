use hackvm::text::{
    all_digits_in, find_char, find_comment, is_digit_char, is_space_char, joined, lines_of,
    parse_digits, parse_i32, push_decimal, push_signed_decimal, same_chars, same_text, slice_of,
    to_chars, to_strings, to_text, trimmed, words_of,
};

fn chars(s: &str) -> Vec<char> {
    s.chars().collect()
}

fn text(v: &Vec<char>) -> String {
    v.iter().collect()
}

#[test]
fn strings_and_characters_convert_both_ways() {
    for s in ["", "a", "D=M+1;JGT", "größe ≤ 3\n\t"] {
        assert_eq!(to_chars(s), chars(s));
        assert_eq!(to_text(&chars(s)), s);
    }
    assert_eq!(
        to_strings(&vec![chars("@1"), chars(""), chars("(L)")]),
        vec!["@1", "", "(L)"]
    );
}

#[test]
fn texts_are_compared_by_their_characters() {
    assert!(same_text(&chars("null"), "null"));
    assert!(!same_text(&chars("null"), "nul"));
    assert!(!same_text(&chars("nul"), "null"));
    assert!(!same_text(&chars("nulL"), "null"));
    assert!(same_text(&chars(""), ""));
    assert!(same_chars(&chars("ab"), &chars("ab")));
    assert!(!same_chars(&chars("ab"), &chars("ba")));
}

#[test]
fn white_space_is_what_the_standard_library_trims() {
    for n in 0..0x11000u32 {
        if let Some(c) = char::from_u32(n) {
            assert_eq!(is_space_char(c), c.is_whitespace(), "{:x}", n);
        }
    }
}

#[test]
fn digits_are_the_ten_decimal_digits() {
    for n in 0..0x300u32 {
        if let Some(c) = char::from_u32(n) {
            assert_eq!(is_digit_char(c), c.is_ascii_digit(), "{:x}", n);
        }
    }
    assert!(all_digits_in(&chars("0123456789")));
    assert!(all_digits_in(&chars("")));
    assert!(!all_digits_in(&chars("12a")));
    assert!(!all_digits_in(&chars("-1")));
}

#[test]
fn numbers_are_written_in_decimal() {
    for (n, expected) in [
        (0u64, "0"),
        (7, "7"),
        (10, "10"),
        (256, "256"),
        (65535, "65535"),
        (4294967295, "4294967295"),
        (u64::MAX, "18446744073709551615"),
    ] {
        let mut out = chars("@");
        push_decimal(&mut out, n);
        assert_eq!(text(&out), format!("@{}", expected));
    }
    for n in [0i64, 1, -1, 42, -42, i32::MAX as i64, i32::MIN as i64, i64::MAX, i64::MIN] {
        let mut out: Vec<char> = Vec::new();
        push_signed_decimal(&mut out, n);
        assert_eq!(text(&out), n.to_string());
    }
}

#[test]
fn digits_are_read_up_to_a_limit() {
    assert_eq!(parse_digits(&chars("0"), 65535), Some(0));
    assert_eq!(parse_digits(&chars("65535"), 65535), Some(65535));
    assert_eq!(parse_digits(&chars("65536"), 65535), None);
    assert_eq!(parse_digits(&chars("0000000000000000000000000012"), 65535), Some(12));
    assert_eq!(parse_digits(&chars("99999999999999999999999999"), 65535), None);
    assert_eq!(parse_digits(&chars(""), 65535), Some(0));
    assert_eq!(parse_digits(&chars("1a"), 65535), None);
}

#[test]
fn signed_numbers_are_read_like_the_standard_library_reads_them() {
    for s in [
        "0", "7", "+7", "-7", "007", "-0", "+0", "2147483647", "-2147483648", "2147483648",
        "-2147483649", "", "-", "+", "--1", "+-1", "1-", "1 ", " 1", "0x10", "١٢",
        "99999999999999999999", "-99999999999999999999",
    ] {
        assert_eq!(parse_i32(&chars(s)), s.parse::<i32>().ok(), "{:?}", s);
    }
}

#[test]
fn searching_finds_the_first_occurrence() {
    assert_eq!(find_char(&chars("D=M;JGT"), '='), 1);
    assert_eq!(find_char(&chars("D=M=A"), '='), 1);
    assert_eq!(find_char(&chars("0;JMP"), '='), 5);
    assert_eq!(find_char(&chars(""), '='), 0);
    assert_eq!(find_comment(&chars("@1 // one // two")), 3);
    assert_eq!(find_comment(&chars("// all")), 0);
    assert_eq!(find_comment(&chars("D/A/")), 4);
    assert_eq!(find_comment(&chars("/")), 1);
    assert_eq!(find_comment(&chars("")), 0);
    assert_eq!(find_comment(&chars("a///")), 1);
    assert_eq!(slice_of(&chars("(LOOP)"), 1, 5), chars("LOOP"));
    assert_eq!(slice_of(&chars("(LOOP)"), 3, 3), chars(""));
}

#[test]
fn trimming_is_what_the_standard_library_trims() {
    for s in [
        "", " ", "a", " a", "a ", "  a b  ", "\t\r\n x \u{a0}\u{3000}", "\u{2003}@i\u{85}",
        "no space", " \t ",
    ] {
        assert_eq!(text(&trimmed(&chars(s))), s.trim(), "{:?}", s);
    }
}

#[test]
fn lines_are_split_at_newlines() {
    for s in ["", "a", "a\n", "\n", "\n\n", "a\nb", "a\r\nb\n\nc", "\na"] {
        let expected: Vec<String> = s.split('\n').map(|x| x.to_string()).collect();
        assert_eq!(to_strings(&lines_of(&chars(s))), expected, "{:?}", s);
    }
}

#[test]
fn words_are_split_at_white_space() {
    for s in ["", " ", "a", " a ", "push constant 7", "  push\tconstant \u{a0} 7\r", "a  b"] {
        let expected: Vec<String> = s.split_whitespace().map(|x| x.to_string()).collect();
        assert_eq!(to_strings(&words_of(&chars(s))), expected, "{:?}", s);
    }
    assert_eq!(text(&joined(&vec![chars("push"), chars("constant"), chars("7")])), "push constant 7");
    assert_eq!(text(&joined(&vec![chars("add")])), "add");
    assert_eq!(text(&joined(&vec![])), "");
}
