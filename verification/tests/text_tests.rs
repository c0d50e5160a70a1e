use music_player::duration::{duration_ms_from_samples, format_duration_enhanced, seconds_of_millis};
use music_player::text::{decimal_string, split_whitespace_words, str_eq, str_lt};

#[test]
fn duration_below_ten_minutes_has_leading_zero() {
    assert_eq!(format_duration_enhanced(0), "00:00");
    assert_eq!(format_duration_enhanced(187), "03:07");
    assert_eq!(format_duration_enhanced(599), "09:59");
}

#[test]
fn duration_between_ten_and_sixty_minutes() {
    assert_eq!(format_duration_enhanced(600), "10:00");
    assert_eq!(format_duration_enhanced(3599), "59:59");
}

#[test]
fn duration_of_an_hour_or_more() {
    assert_eq!(format_duration_enhanced(3600), "1:00:00");
    assert_eq!(format_duration_enhanced(3725), "1:02:05");
    assert_eq!(format_duration_enhanced(36000 + 61), "10:01:01");
    assert_eq!(format_duration_enhanced(u32::MAX), "1193046:28:15");
}

#[test]
fn millis_to_whole_seconds() {
    assert_eq!(seconds_of_millis(0), 0);
    assert_eq!(seconds_of_millis(1999), 1);
    assert_eq!(seconds_of_millis(187_500), 187);
    assert_eq!(seconds_of_millis(u64::MAX), u32::MAX);
}

#[test]
fn samples_to_millis() {
    assert_eq!(duration_ms_from_samples(44_100 * 3, 44_100), Some(3000));
    assert_eq!(duration_ms_from_samples(22_050, 44_100), Some(500));
    assert_eq!(duration_ms_from_samples(1, 3), Some(333));
    assert_eq!(duration_ms_from_samples(10, 0), None);
    assert_eq!(duration_ms_from_samples(u64::MAX, 1), None);
    assert_eq!(duration_ms_from_samples(u64::MAX, 1000), Some(u64::MAX));
}

#[test]
fn decimal_text() {
    assert_eq!(decimal_string(0), "0");
    assert_eq!(decimal_string(7), "7");
    assert_eq!(decimal_string(1234567890), "1234567890");
    assert_eq!(decimal_string(u64::MAX), u64::MAX.to_string());
}

#[test]
fn words_split_on_white_space() {
    assert_eq!(split_whitespace_words("  nav-button   exit-button "), vec!["nav-button", "exit-button"]);
    assert_eq!(split_whitespace_words("one"), vec!["one"]);
    assert!(split_whitespace_words("").is_empty());
    assert!(split_whitespace_words(" \t\n ").is_empty());
    assert_eq!(split_whitespace_words("a\u{3000}b\u{A0}c"), vec!["a", "b", "c"]);
}

#[test]
fn words_match_std_split_whitespace() {
    for s in ["x", " a b ", "Los  Ángeles\tAzules", "\u{2003}é ü\u{85}z", ""] {
        let expected: Vec<String> = s.split_whitespace().map(|w| w.to_string()).collect();
        assert_eq!(split_whitespace_words(s), expected);
    }
}

#[test]
fn string_equality_and_order() {
    assert!(str_eq("Salir", "Salir"));
    assert!(!str_eq("Salir", "Salirr"));
    assert!(!str_eq("abc", "abd"));
    assert!(str_lt("abc", "abd"));
    assert!(str_lt("ab", "abc"));
    assert!(!str_lt("abc", "abc"));
    assert!(!str_lt("b", "a"));
    assert!(str_lt("Z", "a"));
    assert!(str_lt("", "a"));
}
