use scooper::clock::{millis_or_epoch, now};
use scooper::config::{
    parsable_env_var, parse_unsigned, Config, DEFAULT_MAX_LOG_SIZE, DEFAULT_PORT,
};
use std::time::SystemTime;

#[test]
fn defaults_stand_in_for_unset_values() {
    let config = Config::resolve(None, None, None);
    assert_eq!(config.port, 8001);
    assert_eq!(config.log_file, "messages.log");
    assert_eq!(config.max_file_size, 50 * 1024 * 1024);
    assert_eq!(DEFAULT_PORT, 8001);
    assert_eq!(DEFAULT_MAX_LOG_SIZE, 52428800);
}

#[test]
fn set_values_are_taken() {
    let config = Config::resolve(Some("9000"), Some(String::from("/tmp/in.log")), Some("100"));
    assert_eq!(config.port, 9000);
    assert_eq!(config.log_file, "/tmp/in.log");
    assert_eq!(config.max_file_size, 100);
}

#[test]
fn unparsable_values_fall_back() {
    let config = Config::resolve(Some("65536"), Some(String::new()), Some("50MB"));
    assert_eq!(config.port, 8001);
    assert_eq!(config.log_file, "");
    assert_eq!(config.max_file_size, 52428800);
    let config = Config::resolve(Some("-1"), None, Some(""));
    assert_eq!(config.port, 8001);
    assert_eq!(config.max_file_size, 52428800);
}

#[test]
fn numbers_are_read_as_the_standard_library_reads_them() {
    for text in [
        "", "+", "-", "0", "+0", "-0", "007", "8001", "+8001", "65535", "65536", "99999",
        " 1", "1 ", "1_000", "12a", "a12", "++1", "+-1", "1+", "0x10", "٣", "1.0",
        "000000000000000000000000065535", "18446744073709551615", "18446744073709551616",
        "184467440737095516150", "340282366920938463463374607431768211456",
    ] {
        let as_u16: Option<u64> = text.parse::<u16>().ok().map(u64::from);
        assert_eq!(parse_unsigned(text, u16::MAX as u64), as_u16, "text {:?}", text);
        let as_u64: Option<u64> = text.parse::<u64>().ok();
        assert_eq!(parse_unsigned(text, u64::MAX), as_u64, "text {:?}", text);
    }
}

#[test]
fn a_setting_is_its_number_or_the_default() {
    assert_eq!(parsable_env_var(Some("42"), 7, 100), 42);
    assert_eq!(parsable_env_var(Some("100"), 7, 100), 100);
    assert_eq!(parsable_env_var(Some("101"), 7, 100), 7);
    assert_eq!(parsable_env_var(Some("forty"), 7, 100), 7);
    assert_eq!(parsable_env_var(None, 7, 100), 7);
}

#[test]
fn the_clock_is_read_in_milliseconds() {
    let before = SystemTime::now()
        .duration_since(SystemTime::UNIX_EPOCH)
        .unwrap()
        .as_millis();
    let read = now();
    let after = SystemTime::now()
        .duration_since(SystemTime::UNIX_EPOCH)
        .unwrap()
        .as_millis();
    assert!(before <= read && read <= after);
    assert!(read > 1_600_000_000_000);
}

#[test]
fn the_crate_root_offers_the_utilities() {
    assert_eq!(scooper::human_readable_size(2048), "2.00 KB");
    assert_eq!(scooper::parsable_env_var(Some("8080"), 8001, 65535), 8080);
    assert!(scooper::now() > 0);
}

#[test]
fn a_clock_before_the_epoch_reads_zero() {
    assert_eq!(millis_or_epoch(None), 0);
    assert_eq!(millis_or_epoch(Some(1700000000123)), 1700000000123);
}
