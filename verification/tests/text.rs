use qevy::text::{join, parse_i32, push_decimal, push_signed_decimal, replace, split, trim};

fn decimal_of(n: u128) -> String {
    let mut out = String::new();
    push_decimal(&mut out, n);
    out
}

fn signed_decimal_of(n: i128) -> String {
    let mut out = String::new();
    push_signed_decimal(&mut out, n);
    out
}

#[test]
fn decimal_numerals() {
    assert_eq!(decimal_of(0), "0");
    assert_eq!(decimal_of(7), "7");
    assert_eq!(decimal_of(10), "10");
    assert_eq!(decimal_of(1234567890), "1234567890");
    assert_eq!(decimal_of(u128::MAX), "340282366920938463463374607431768211455");
    for n in [9u128, 99, 100, 101, 255, 256, 4096, 65535, 1 << 31, 1 << 64] {
        assert_eq!(decimal_of(n), n.to_string());
    }
}

#[test]
fn decimal_is_appended_to_what_is_there() {
    let mut out = String::from("n = ");
    push_decimal(&mut out, 42);
    assert_eq!(out, "n = 42");
    push_signed_decimal(&mut out, -1);
    assert_eq!(out, "n = 42-1");
}

#[test]
fn signed_decimal_numerals() {
    assert_eq!(signed_decimal_of(0), "0");
    assert_eq!(signed_decimal_of(-1), "-1");
    assert_eq!(signed_decimal_of(-120), "-120");
    assert_eq!(signed_decimal_of(i128::MAX), i128::MAX.to_string());
    assert_eq!(signed_decimal_of(i128::MIN), "-170141183460469231731687303715884105728");
    for n in [i64::MIN as i128, i32::MIN as i128, -10, -9, 9, 10, i64::MAX as i128] {
        assert_eq!(signed_decimal_of(n), n.to_string());
    }
}

#[test]
fn join_puts_the_separator_between_neighbours() {
    let none: Vec<String> = vec![];
    assert_eq!(join(&none, ", "), "");
    assert_eq!(join(&vec!["a".to_string()], ", "), "a");
    assert_eq!(join(&vec!["a".to_string(), "b".to_string(), "c".to_string()], ", "), "a, b, c");
    assert_eq!(join(&vec!["".to_string(), "".to_string()], "\n"), "\n");
    let parts = vec!["x".to_string(), "".to_string(), "yz".to_string()];
    assert_eq!(join(&parts, "--"), parts.join("--"));
}

#[test]
fn trim_agrees_with_the_standard_library() {
    let cases = [
        "",
        " ",
        "a",
        "  a  ",
        "\t a b \n",
        " \r\n",
        "\u{a0}x\u{a0}",
        "\u{2003}wide\u{3000}",
        "\u{85}next line\u{2028}\u{2029}",
        "\u{1680}ogham\u{205f}\u{202f}",
        "\u{200b}zero width is no white space ",
        "inner  space",
        " é ",
        "\u{b}\u{c}form feed\u{c}",
    ];
    for case in cases {
        assert_eq!(trim(case), case.trim(), "trimming {:?}", case);
    }
    assert_eq!(trim("  hello world \n"), "hello world");
}

#[test]
fn split_agrees_with_the_standard_library() {
    let cases = ["", " ", "a", "a b", "a  b", " a b ", "1 2 3", "0 0 0", "a b c d", "é ü", "  "];
    for case in cases {
        let expected: Vec<String> = case.split(' ').map(|piece| piece.to_string()).collect();
        assert_eq!(split(case, ' '), expected, "splitting {:?}", case);
    }
    assert_eq!(split("8 16 24", ' '), vec!["8", "16", "24"]);
    assert_eq!(split("", ' '), vec![""]);
    assert_eq!(split(" ", ' '), vec!["", ""]);
    assert_eq!(split("a,b", ','), vec!["a", "b"]);
}

#[test]
fn replace_agrees_with_the_standard_library() {
    let cases = [
        ("", "ab", "x"),
        ("ab", "ab", "x"),
        ("abab", "ab", "x"),
        ("aab", "ab", "x"),
        ("aaa", "aa", "b"),
        ("aaaa", "aa", "b"),
        ("a:fieldname:b:fieldname:", ":fieldname:", "speed"),
        (":field:fieldname:", ":fieldname:", "x"),
        ("abc", "abcd", "x"),
        ("abc", "c", ""),
        ("abc", "b", "bb"),
        ("ééé", "é", "e"),
        ("x", "x", "xx"),
        ("abc", "", "-"),
        ("", "", "-"),
        ("é", "", ""),
        ("ab", "", "ab"),
    ];
    for (text, pattern, with) in cases {
        assert_eq!(replace(text, pattern, with), text.replace(pattern, with), "{:?}", text);
    }
    assert_eq!(replace("aaa", "aa", "b"), "ba");
    assert_eq!(replace("one two", " ", ""), "onetwo");
    assert_eq!(replace("abc", "", "-"), "-a-b-c-");
    assert_eq!(replace("", "", "-"), "-");
}

#[test]
fn parse_i32_agrees_with_the_standard_library() {
    let cases = [
        "", "0", "1", "-1", "+1", "+", "-", "--1", "+-1", "-+1", "1-", " 1", "1 ", "1.0", "1e3",
        "007", "-007", "+007", "2147483647", "2147483648", "-2147483648", "-2147483649",
        "+2147483647", "+2147483648", "00000000000000000000002147483647",
        "-00000000000000000000002147483648", "99999999999999999999", "-99999999999999999999",
        "12a", "a12", "1_000", "0x10", "١٢٣", "１２", "true", "21474836470", "4294967296",
        "-0", "+0", "1\n",
    ];
    for case in cases {
        assert_eq!(parse_i32(case), case.parse::<i32>().ok(), "parsing {:?}", case);
    }
    assert_eq!(parse_i32("42"), Some(42));
    assert_eq!(parse_i32("-2147483648"), Some(i32::MIN));
    assert_eq!(parse_i32("2147483648"), None);
    assert_eq!(parse_i32("4 2"), None);
}

#[test]
fn every_numeral_is_read_back() {
    for n in [i32::MIN, i32::MIN + 1, -1000, -1, 0, 1, 9, 10, 1000, i32::MAX - 1, i32::MAX] {
        assert_eq!(parse_i32(&signed_decimal_of(n as i128)), Some(n));
    }
}

#[test]
fn joining_the_pieces_gives_the_text_back() {
    for text in ["", " ", "a", "a b", " a  b ", "0 0 0", "   ", "é ü  ", "no-space"] {
        assert_eq!(join(&split(text, ' '), " "), text);
        assert_eq!(split(text, ' ').len(), text.matches(' ').count() + 1);
    }
}
