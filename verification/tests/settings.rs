use focuser::settings::{
    browser_enforcement_settings, parse_bool, parse_u64, DEFAULT_EXTENSION_GRACE_PERIOD_SECS,
};

#[test]
fn parse_u64_like_from_str() {
    assert_eq!(parse_u64("60"), Some(60));
    assert_eq!(parse_u64("+5"), Some(5));
    assert_eq!(parse_u64("007"), Some(7));
    assert_eq!(parse_u64("18446744073709551615"), Some(u64::MAX));
    assert_eq!(parse_u64("18446744073709551616"), None);
    assert_eq!(parse_u64(""), None);
    assert_eq!(parse_u64("+"), None);
    assert_eq!(parse_u64("-1"), None);
    assert_eq!(parse_u64(" 1"), None);
    assert_eq!(parse_u64("1a"), None);
    for s in ["0", "42", "+9", "99999999999", "x", "", "1 "] {
        assert_eq!(parse_u64(s), s.parse::<u64>().ok());
    }
}

#[test]
fn parse_bool_like_from_str() {
    assert_eq!(parse_bool("true"), Some(true));
    assert_eq!(parse_bool("false"), Some(false));
    assert_eq!(parse_bool("True"), None);
    assert_eq!(parse_bool("1"), None);
}

#[test]
fn enforcement_settings_fall_back_to_defaults() {
    assert_eq!(browser_enforcement_settings("30", "true"), (30, true));
    assert_eq!(
        browser_enforcement_settings("soon", "yes"),
        (DEFAULT_EXTENSION_GRACE_PERIOD_SECS, false)
    );
    assert_eq!(browser_enforcement_settings("60", "false"), (60, false));
}
