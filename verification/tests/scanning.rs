use nvcheckup::scan::{
    chars_of, find_in, is_space, line_ranges, parse_i32, parse_i64, parse_usize, split_ranges,
    text_between, trim, trim_range,
};
use nvcheckup::strings::{push_decimal, push_signed_decimal, str_eq};

fn pieces(text: &str, bounds: &[(usize, usize)]) -> Vec<String> {
    let chars: Vec<char> = text.chars().collect();
    bounds.iter().map(|(a, b)| chars[*a..*b].iter().collect()).collect()
}

fn lines_of(text: &str) -> Vec<String> {
    let chars = chars_of(text);
    pieces(text, &line_ranges(&chars))
}

fn split_of(text: &str, sep: &str) -> Vec<String> {
    let chars = chars_of(text);
    let sep = chars_of(sep);
    pieces(text, &split_ranges(&chars, 0, chars.len(), &sep))
}

fn samples() -> Vec<&'static str> {
    vec![
        "",
        "\n",
        "\r\n",
        "\r",
        "a",
        "a\n",
        "a\r\n",
        "a\r",
        "a\n\nb",
        "a\r\n\r\nb\r\n",
        "a\rb\nc",
        "\n\n\n",
        "one\ntwo\nthree",
        "one\r\ntwo\r\nthree\r",
        "\r\r\n",
        "0, NVIDIA GeForce RTX 3080, 535.104.05, 10240, 45",
        "a, b, , c,d ,e, ",
        ", ",
        ", , ",
        ",, ,",
        "é, ü, 漢字\n— ° ─",
    ]
}

#[test]
fn str_eq_compares_characters() {
    assert!(str_eq("", ""));
    assert!(str_eq("CRIT", "CRIT"));
    assert!(!str_eq("CRIT", "CRIt"));
    assert!(!str_eq("CRIT", "CRITI"));
    assert!(!str_eq("CRIT", ""));
    assert!(str_eq("90°C — ─", "90°C — ─"));
    assert!(!str_eq("90°C", "90 C"));
}

#[test]
fn decimal_writes_numbers_as_the_standard_library_does() {
    for n in [0u64, 1, 9, 10, 11, 99, 100, 101, 2048, 4095, 1234567890, u64::MAX] {
        let mut out = String::from("n=");
        push_decimal(&mut out, n);
        assert_eq!(out, format!("n={}", n));
    }
    for n in [0i64, 1, -1, 9, -9, 10, -10, 2048, -2048, i64::MAX, i64::MIN, i64::MIN + 1] {
        let mut out = String::from("n=");
        push_signed_decimal(&mut out, n);
        assert_eq!(out, format!("n={}", n));
    }
    let mut out = String::new();
    push_decimal(&mut out, 18446744073709551615);
    assert_eq!(out, "18446744073709551615");
    let mut out = String::new();
    push_signed_decimal(&mut out, i64::MIN);
    assert_eq!(out, "-9223372036854775808");
}

#[test]
fn chars_of_and_text_between_keep_characters() {
    assert_eq!(chars_of(""), Vec::<char>::new());
    assert_eq!(chars_of("a°─z"), vec!['a', '°', '─', 'z']);
    assert_eq!(text_between("a°─z", 1, 3), "°─");
    assert_eq!(text_between("a°─z", 0, 4), "a°─z");
    assert_eq!(text_between("a°─z", 2, 2), "");
}

#[test]
fn whitespace_is_what_the_standard_library_calls_whitespace() {
    for code in 0u32..=0x11000 {
        if let Some(c) = char::from_u32(code) {
            assert_eq!(is_space(c), c.is_whitespace(), "U+{:04X}", code);
        }
    }
    assert!(!is_space(char::MAX));
}

#[test]
fn trim_agrees_with_the_standard_library() {
    let texts = [
        "",
        " ",
        "  \t\r\n",
        "a",
        " a",
        "a ",
        "  a b  ",
        "\u{3000}wide\u{2003}",
        "\u{200B}zero width\u{200B}",
        "\u{85}\u{A0}x\u{1680}\u{2028}\u{2029}\u{202F}\u{205F}",
        "Intel(R) Core(TM) i7\n",
        " é ",
    ];
    for text in texts {
        assert_eq!(trim(text), text.trim(), "{:?}", text);
    }
    let chars = chars_of("ab  cd  ");
    assert_eq!(trim_range(&chars, 2, 8), (4, 6));
    assert_eq!(trim_range(&chars, 2, 4), (4, 4));
    assert_eq!(trim_range(&chars, 0, 8), (0, 6));
    assert_eq!(trim_range(&chars, 3, 3), (3, 3));
}

#[test]
fn find_in_gives_the_first_occurrence_in_the_range() {
    let chars = chars_of("abcabcab");
    let pat = chars_of("ab");
    assert_eq!(find_in(&chars, 0, 8, &pat), Some(0));
    assert_eq!(find_in(&chars, 1, 8, &pat), Some(3));
    assert_eq!(find_in(&chars, 4, 8, &pat), Some(6));
    assert_eq!(find_in(&chars, 4, 7, &pat), None);
    assert_eq!(find_in(&chars, 7, 8, &pat), None);
    assert_eq!(find_in(&chars, 8, 8, &pat), None);
    assert_eq!(find_in(&chars, 0, 8, &chars_of("abcabcabc")), None);
    assert_eq!(find_in(&chars, 0, 8, &chars_of("cab")), Some(2));
    assert_eq!(find_in(&chars, 3, 8, &[]), Some(3));
}

#[test]
fn lines_agree_with_the_standard_library() {
    for text in samples() {
        let expected: Vec<String> = text.lines().map(|l| l.to_string()).collect();
        assert_eq!(lines_of(text), expected, "{:?}", text);
    }
    assert_eq!(lines_of("a\r\nb\n\nc\r"), vec!["a", "b", "", "c\r"]);
    assert!(lines_of("").is_empty());
}

#[test]
fn split_agrees_with_the_standard_library() {
    for text in samples() {
        for sep in [", ", ",", "\n", "ab", "  "] {
            let expected: Vec<String> = text.split(sep).map(|l| l.to_string()).collect();
            assert_eq!(split_of(text, sep), expected, "{:?} by {:?}", text, sep);
        }
    }
    assert_eq!(split_of("a, b, ", ", "), vec!["a", "b", ""]);
    assert_eq!(split_of("", ", "), vec![""]);
    assert_eq!(split_of("aaa", "aa"), vec!["", "a"]);
    assert_eq!(split_of("abc", ""), vec!["abc"]);
    let chars = chars_of("x, a, b, y");
    assert_eq!(split_ranges(&chars, 3, 7, &chars_of(", ")), vec![(3, 4), (6, 7)]);
}

#[test]
fn numbers_are_read_as_the_standard_library_reads_them() {
    let texts = [
        "",
        "0",
        "7",
        "+7",
        "-7",
        "-0",
        "+0",
        "+",
        "-",
        "+-1",
        "--1",
        "++1",
        "007",
        "-007",
        "12a",
        "a12",
        "1 2",
        " 12",
        "12 ",
        "1.5",
        "١٢",
        "2147483647",
        "2147483648",
        "-2147483648",
        "-2147483649",
        "4294967295",
        "4294967296",
        "9223372036854775807",
        "9223372036854775808",
        "-9223372036854775808",
        "-9223372036854775809",
        "18446744073709551615",
        "18446744073709551616",
        "000000000000000000000000000000000000000001",
        "99999999999999999999999999999999999999999",
        "-99999999999999999999999999999999999999999",
        "184467440737095516150",
    ];
    for text in texts {
        let chars = chars_of(text);
        let n = chars.len();
        assert_eq!(parse_usize(&chars, 0, n), text.parse::<usize>().ok(), "{:?}", text);
        assert_eq!(parse_i64(&chars, 0, n), text.parse::<i64>().ok(), "{:?}", text);
        assert_eq!(parse_i32(&chars, 0, n), text.parse::<i32>().ok(), "{:?}", text);
    }
    let chars = chars_of("ab-42cd");
    assert_eq!(parse_i32(&chars, 2, 5), Some(-42));
    assert_eq!(parse_i64(&chars, 3, 5), Some(42));
    assert_eq!(parse_usize(&chars, 2, 5), None);
    assert_eq!(parse_usize(&chars, 3, 6), None);
    assert_eq!(parse_usize(&chars, 4, 4), None);
}
