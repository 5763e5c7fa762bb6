use request_capture::config::{
    acquire_timeout_secs, listen_address, parse_u64, parse_usize, usize_setting, ServiceConfig,
};

#[test]
fn parse_u64_reads_plain_digits() {
    assert_eq!(parse_u64("30"), Some(30));
    assert_eq!(parse_u64("007"), Some(7));
    assert_eq!(parse_u64("+7"), Some(7));
    assert_eq!(parse_u64("0"), Some(0));
}

#[test]
fn parse_u64_refuses_what_std_refuses() {
    for text in ["", "+", "-1", "-0", " 5", "5 ", "1_000", "++1", "0x10", "１"] {
        assert_eq!(parse_u64(text), None, "{text:?}");
        assert_eq!(parse_u64(text), text.parse::<u64>().ok(), "{text:?}");
    }
}

#[test]
fn parse_u64_range_edges() {
    assert_eq!(parse_u64("18446744073709551615"), Some(u64::MAX));
    assert_eq!(parse_u64("18446744073709551616"), None);
    assert_eq!(parse_u64("99999999999999999999999"), None);
}

#[test]
fn parse_agrees_with_std_on_samples() {
    let samples = [
        "1", "+1", "-1", "12a", "a12", "4294967295", "4294967296", "18446744073709551615",
        "18446744073709551616", "", "+", "-", "00000000000000000000000001", "9x",
    ];
    for text in samples {
        assert_eq!(parse_u64(text), text.parse::<u64>().ok(), "{text:?}");
        assert_eq!(parse_usize(text), text.parse::<usize>().ok(), "{text:?}");
    }
}

#[test]
fn acquire_timeout_defaults_to_thirty() {
    assert_eq!(acquire_timeout_secs(None), 30);
    assert_eq!(acquire_timeout_secs(Some("45")), 45);
    assert_eq!(acquire_timeout_secs(Some("soon")), 30);
    assert_eq!(acquire_timeout_secs(Some("-5")), 30);
}

#[test]
fn usize_setting_falls_back_to_default() {
    assert_eq!(usize_setting(None, 9), 9);
    assert_eq!(usize_setting(Some("12"), 9), 12);
    assert_eq!(usize_setting(Some("twelve"), 9), 9);
}

#[test]
fn listen_address_uses_port_or_3000() {
    assert_eq!(listen_address(None), "0.0.0.0:3000");
    assert_eq!(listen_address(Some("8080")), "0.0.0.0:8080");
}

#[test]
fn service_config_defaults() {
    let c = ServiceConfig::from_settings(None, None, None);
    assert_eq!(c.listen_addr, "0.0.0.0:3000");
    assert_eq!(c.max_body_bytes, 1024 * 1024);
    assert_eq!(c.max_concurrent_writes, 2000);
}

#[test]
fn service_config_reads_settings() {
    let c = ServiceConfig::from_settings(Some("9000"), Some("64"), Some("abc"));
    assert_eq!(c.listen_addr, "0.0.0.0:9000");
    assert_eq!(c.max_body_bytes, 64);
    assert_eq!(c.max_concurrent_writes, 2000);
}
