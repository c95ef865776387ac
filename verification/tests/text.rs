use tiny_discord_bot::text::{
    chars_before, chars_equal, chars_of, contains_chars, keep_ascii, parse_u64, remove_char,
    string_of, trim_chars, u64_to_string,
};

fn s(v: &Vec<char>) -> String {
    string_of(v)
}

#[test]
fn parse_u64_matches_std_parse() {
    let cases = [
        "0", "7", "+7", "123", "", "+", "-", "-1", "+-1", "12a", " 1", "1 ", "007",
        "18446744073709551615", "18446744073709551616", "99999999999999999999", "+18446744073709551615",
        "٣", "1_000",
    ];
    for c in cases {
        assert_eq!(parse_u64(c), c.parse::<u64>().ok(), "case {:?}", c);
    }
}

#[test]
fn parse_u64_edge_values() {
    assert_eq!(parse_u64("18446744073709551615"), Some(u64::MAX));
    assert_eq!(parse_u64("18446744073709551616"), None);
    assert_eq!(parse_u64("+42"), Some(42));
    assert_eq!(parse_u64(""), None);
}

#[test]
fn decimal_round_trip() {
    for n in [0u64, 1, 9, 10, 99, 100, 12345, 1376351248919429183, u64::MAX] {
        let t = u64_to_string(n);
        assert_eq!(t, n.to_string());
        assert_eq!(parse_u64(&t), Some(n));
    }
}

#[test]
fn trim_matches_std_trim() {
    for c in ["  a b  ", "\t\nx\u{3000}", "", "   ", "abc", "\u{85}é\u{a0}", " \u{2028}z z\u{205f}"] {
        assert_eq!(s(&trim_chars(&chars_of(c))), c.trim(), "case {:?}", c);
    }
}

#[test]
fn remove_char_drops_every_occurrence() {
    assert_eq!(s(&remove_char(&chars_of("i'm banning 'you'"), '\'')), "im banning you");
    assert_eq!(s(&remove_char(&chars_of("none here"), '\'')), "none here");
}

#[test]
fn keep_ascii_drops_non_ascii() {
    assert_eq!(s(&keep_ascii(&chars_of("héllo wörld ✓"))), "hllo wrld ");
    let once = s(&keep_ascii(&chars_of("日本 bob")));
    assert_eq!(s(&keep_ascii(&chars_of(&once))), once);
}

#[test]
fn contains_and_before() {
    assert!(contains_chars(&chars_of("call the mods now"), &chars_of("mods")));
    assert!(contains_chars(&chars_of("abc"), &chars_of("")));
    assert!(!contains_chars(&chars_of("ab"), &chars_of("abc")));
    assert!(!contains_chars(&chars_of("mdos"), &chars_of("mods")));
    assert_eq!(s(&chars_before(&chars_of("a.png?x=1?y"), '?')), "a.png");
    assert_eq!(s(&chars_before(&chars_of("plain"), '?')), "plain");
    assert!(chars_equal(&chars_of("same"), &chars_of("same")));
    assert!(!chars_equal(&chars_of("same"), &chars_of("sane")));
}
