use nft_staking_core::text::{clean, i64_text, parse_i64, parse_u64, trim_padding, u64_text, Padding};

fn chars(s: &str) -> Vec<char> {
    s.chars().collect()
}

fn text(v: &[char]) -> String {
    v.iter().collect()
}

#[test]
fn renders_signed_times() {
    assert_eq!(text(&i64_text(0)), "0");
    assert_eq!(text(&i64_text(1_700_000_000)), "1700000000");
    assert_eq!(text(&i64_text(-42)), "-42");
    assert_eq!(text(&i64_text(i64::MIN)), "-9223372036854775808");
    assert_eq!(text(&i64_text(i64::MAX)), "9223372036854775807");
}

#[test]
fn renders_counts() {
    assert_eq!(text(&u64_text(0)), "0");
    assert_eq!(text(&u64_text(10)), "10");
    assert_eq!(text(&u64_text(u64::MAX)), "18446744073709551615");
}

#[test]
fn parses_signed_like_std() {
    for s in ["0", "123", "+5", "-0", "-17", "007", "-9223372036854775808", "9223372036854775807",
        "9223372036854775808", "-9223372036854775809", "", "+", "-", "1a", " 1", "+-1", "--1"]
    {
        assert_eq!(parse_i64(&chars(s)), s.parse::<i64>().ok(), "input {:?}", s);
    }
}

#[test]
fn parses_unsigned_like_std() {
    for s in ["0", "+9", "-1", "-0", "18446744073709551615", "18446744073709551616", "", "+", "x", "99999999999999999999"] {
        assert_eq!(parse_u64(&chars(s)), s.parse::<u64>().ok(), "input {:?}", s);
    }
}

#[test]
fn trims_nul_then_white_space() {
    assert_eq!(text(&clean(&chars("\0\0 1000 \0"))), "1000");
    assert_eq!(text(&clean(&chars(" \0123"))), "\0123");
    assert_eq!(text(&clean(&chars("\u{3000}\t12\u{85}"))), "12");
    assert_eq!(text(&clean(&chars(""))), "");
    assert_eq!(text(&trim_padding(&chars("\0a\0"), Padding::Nul)), "a");
    assert_eq!(text(&trim_padding(&chars("  "), Padding::WhiteSpace)), "");
}

#[test]
fn white_space_matches_std() {
    for c in ['\t', '\n', '\u{b}', '\u{c}', '\r', ' ', '\u{85}', '\u{a0}', '\u{1680}', '\u{2000}', '\u{200a}',
        '\u{2028}', '\u{2029}', '\u{202f}', '\u{205f}', '\u{3000}', 'a', '\0', '\u{200b}', '\u{180e}', '\u{feff}']
    {
        let s: String = [c, 'x', c].iter().collect();
        assert_eq!(text(&trim_padding(&chars(&s), Padding::WhiteSpace)), s.trim(), "char {:?}", c);
    }
}
