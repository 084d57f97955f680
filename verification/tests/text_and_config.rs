use backend::config::{
    missing_env_message, nonempty_setting, parse_duration_secs, parse_i32_or, parse_u16_or,
    parse_u32_or, JINA_CONNECT_TIMEOUT_SECS, JINA_REQUEST_TIMEOUT_SECS,
    PASSWORD_INIT_TOKEN_TTL_HOURS,
};
use backend::text::{parse_i32, parse_u16, parse_u32, parse_u64, same_text, u64_to_string};

#[test]
fn parse_duration_secs_reads_seconds() {
    assert_eq!(parse_duration_secs("900", 5), 900);
    assert_eq!(parse_duration_secs("+42", 5), 42);
    assert_eq!(parse_duration_secs("2592000", 900), 2_592_000);
}

#[test]
fn parse_duration_secs_falls_back() {
    assert_eq!(parse_duration_secs("", 900), 900);
    assert_eq!(parse_duration_secs(" 900", 7), 7);
    assert_eq!(parse_duration_secs("15m", 900), 900);
    assert_eq!(parse_duration_secs("-1", 900), 900);
    assert_eq!(parse_duration_secs("18446744073709551616", 3), 3);
    assert_eq!(parse_duration_secs("18446744073709551615", 3), u64::MAX);
}

#[test]
fn numeric_settings_parse_or_default() {
    assert_eq!(parse_u32_or(Some("10"), 3), 10);
    assert_eq!(parse_u32_or(Some("ten"), 3), 3);
    assert_eq!(parse_u32_or(None, 3), 3);
    assert_eq!(parse_u32_or(Some("4294967296"), 3), 3);
    assert_eq!(parse_u16_or(Some("8080"), 1), 8080);
    assert_eq!(parse_u16_or(Some("65536"), 1), 1);
    assert_eq!(parse_i32_or(Some("-7"), 1), -7);
    assert_eq!(parse_i32_or(Some("2147483648"), 1), 1);
    assert_eq!(parse_i32_or(Some("-2147483648"), 1), i32::MIN);
    assert_eq!(parse_i32_or(None, 1), 1);
}

#[test]
fn empty_settings_count_as_absent() {
    assert_eq!(nonempty_setting(Some("turbo".to_string())), Some("turbo".to_string()));
    assert_eq!(nonempty_setting(Some(String::new())), None);
    assert_eq!(nonempty_setting(None), None);
}

#[test]
fn missing_setting_message() {
    assert_eq!(missing_env_message("DATABASE_URL"), "Missing required env var: DATABASE_URL");
}

#[test]
fn fixed_settings() {
    assert_eq!(JINA_REQUEST_TIMEOUT_SECS, 30);
    assert_eq!(JINA_CONNECT_TIMEOUT_SECS, 10);
    assert_eq!(PASSWORD_INIT_TOKEN_TTL_HOURS, 72);
}

#[test]
fn integer_parsing_matches_std() {
    for s in ["0", "+0", "007", "", "+", "-", "12a", "4294967295", "4294967296", "-5", " 1"] {
        assert_eq!(parse_u32(s), s.parse::<u32>().ok(), "u32 {s:?}");
        assert_eq!(parse_u64(s), s.parse::<u64>().ok(), "u64 {s:?}");
        assert_eq!(parse_u16(s), s.parse::<u16>().ok(), "u16 {s:?}");
        assert_eq!(parse_i32(s), s.parse::<i32>().ok(), "i32 {s:?}");
    }
    assert_eq!(parse_i32("-2147483649"), None);
    assert_eq!(parse_i32("+2147483647"), Some(i32::MAX));
}

#[test]
fn decimal_text() {
    assert_eq!(u64_to_string(0), "0");
    assert_eq!(u64_to_string(1234567890), "1234567890");
    assert_eq!(u64_to_string(u64::MAX), u64::MAX.to_string());
}

#[test]
fn same_text_compares_characters() {
    assert!(same_text("file", "file"));
    assert!(!same_text("file", "File"));
    assert!(!same_text("file", "files"));
    assert!(same_text("", ""));
}
