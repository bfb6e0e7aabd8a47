use remerge::server_config::{log_json_flag, parse_env_u32, parse_env_u64, parse_env_usize};

#[test]
fn numeric_overrides_read_like_str_parse() {
    assert_eq!(parse_env_u64("42"), Some(42));
    assert_eq!(parse_env_u64("+42"), Some(42));
    assert_eq!(parse_env_u64("18446744073709551615"), Some(u64::MAX));
    assert_eq!(parse_env_u64("18446744073709551616"), None);
    assert_eq!(parse_env_u64(""), None);
    assert_eq!(parse_env_u64("+"), None);
    assert_eq!(parse_env_u64("-1"), None);
    assert_eq!(parse_env_u64(" 1"), None);
    assert_eq!(parse_env_u64("1h"), None);
    assert_eq!(parse_env_u32("4294967295"), Some(u32::MAX));
    assert_eq!(parse_env_u32("4294967296"), None);
    assert_eq!(parse_env_usize("8"), Some(8));
    for v in ["0", "7", "+12", "x", "", "99999999999999999999"] {
        assert_eq!(parse_env_u64(v), v.parse::<u64>().ok());
        assert_eq!(parse_env_u32(v), v.parse::<u32>().ok());
        assert_eq!(parse_env_usize(v), v.parse::<usize>().ok());
    }
}

#[test]
fn log_json_switch() {
    assert!(log_json_flag("1"));
    assert!(log_json_flag("true"));
    assert!(log_json_flag("TRUE"));
    assert!(log_json_flag("True"));
    assert!(!log_json_flag("yes"));
    assert!(!log_json_flag("0"));
    assert!(!log_json_flag(""));
}
