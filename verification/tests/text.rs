use commitchi::pet::Error;
use commitchi::text::{
    chars_of, find, find_from, lower_char, lower_chars, matches_at, push_decimal, push_str,
    str_contains, str_eq, string_of, trim_chars, white_space,
};

#[test]
fn decimal_numbers() {
    let mut s = String::from("n=");
    push_decimal(&mut s, 0);
    push_str(&mut s, ",");
    push_decimal(&mut s, 1_234_567);
    assert_eq!(s, "n=0,1234567");
    let mut max = String::new();
    push_decimal(&mut max, u64::MAX);
    assert_eq!(max, u64::MAX.to_string());
}

#[test]
fn searching_text() {
    let hay = chars_of("abcabc");
    let needle = chars_of("ca");
    assert!(matches_at(&hay, &needle, 2));
    assert!(!matches_at(&hay, &needle, 3));
    assert_eq!(find(&hay, &needle), Some(2));
    assert_eq!(find_from(&hay, &chars_of("abc"), 1), Some(3));
    assert_eq!(find(&hay, &chars_of("zz")), None);
    assert!(str_contains("hello world", "o w"));
    assert!(!str_contains("hello", "world"));
    assert!(str_contains("x", ""));
}

#[test]
fn trimming_and_case() {
    assert_eq!(string_of(&trim_chars(&chars_of("  a b \t\n"))), "a b");
    assert_eq!(string_of(&trim_chars(&chars_of("   "))), "");
    assert!(white_space('\u{2003}'));
    assert!(!white_space('x'));
    assert_eq!(lower_char('Q'), 'q');
    assert_eq!(lower_char('É'), 'É');
    assert_eq!(string_of(&lower_chars(&chars_of("AbC1"))), "abc1");
    assert!(str_eq("same", "same"));
    assert!(!str_eq("same", "sane"));
}

#[test]
fn pet_error_messages() {
    assert_eq!(
        Error::MissingStateTarget("global").message(),
        "state target is not configured for global scope"
    );
    assert_eq!(
        Error::MissingDataDirectory.message(),
        "could not determine an app data directory for global pet state"
    );
    assert_eq!(
        Error::Json { path: "s.json".to_string(), message: "eof".to_string() }.message(),
        "failed to parse pet state at s.json: eof"
    );
    assert_eq!(
        Error::Io { path: "s.json".to_string(), not_found: true, message: "gone".to_string() }.message(),
        "failed to read or write pet state at s.json: gone"
    );
}
