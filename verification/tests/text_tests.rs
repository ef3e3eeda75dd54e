use baker::text::{avatar_initial, parse_u64, push_decimal, str_eq, trim};

#[test]
fn trim_matches_std_on_unicode_whitespace() {
    let samples = [
        "",
        "   ",
        "  zh-CN  ",
        "\t\n en-US \r\n",
        "\u{3000}全角\u{3000}",
        "\u{00A0}a b\u{2028}",
        "\u{200B}x\u{200B}",
        "a",
        " \u{1680}\u{2000}\u{200A}\u{202F}\u{205F}\u{0085}mid dle\u{000B}\u{000C}",
    ];
    for s in samples {
        assert_eq!(trim(s), s.trim(), "input {:?}", s);
    }
}

#[test]
fn parse_u64_agrees_with_std() {
    let samples = [
        "", "+", "-", "0", "800", "+40", "-1", "00012", " 1", "1 ", "1.5", "abc",
        "18446744073709551615", "18446744073709551616", "99999999999999999999999",
        "+18446744073709551615", "++1", "1e3", "٣",
    ];
    for s in samples {
        assert_eq!(parse_u64(s), s.parse::<u64>().ok(), "input {:?}", s);
    }
}

#[test]
fn decimal_matches_to_string() {
    for n in [0u64, 7, 10, 99, 340, 960, 1280, 4_294_967_295, u64::MAX] {
        let mut s = String::from("x");
        push_decimal(&mut s, n);
        assert_eq!(s, format!("x{}", n));
    }
}

#[test]
fn avatar_initial_is_first_char_or_question_mark() {
    assert_eq!(avatar_initial("Amiya"), 'A');
    assert_eq!(avatar_initial("阿米娅"), '阿');
    assert_eq!(avatar_initial(""), '?');
}

#[test]
fn str_eq_compares_characters() {
    assert!(str_eq("zh-CN", "zh-CN"));
    assert!(!str_eq("zh-CN", "zh-cn"));
}
