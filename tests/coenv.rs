use concierge::coenv::{parse_u64, COEnv};

#[test]
fn read_env_u64_parses_or_falls_back() {
    assert_eq!(COEnv::read_env_u64(Some("123"), 5), 123);
    assert_eq!(COEnv::read_env_u64(Some("+7"), 5), 7);
    assert_eq!(COEnv::read_env_u64(Some("0"), 5), 0);
    assert_eq!(COEnv::read_env_u64(None, 5), 5);
    assert_eq!(COEnv::read_env_u64(Some(""), 5), 5);
    assert_eq!(COEnv::read_env_u64(Some("+"), 5), 5);
    assert_eq!(COEnv::read_env_u64(Some("-1"), 5), 5);
    assert_eq!(COEnv::read_env_u64(Some("12a"), 5), 5);
    assert_eq!(COEnv::read_env_u64(Some(" 12"), 5), 5);
}

#[test]
fn parse_u64_limits() {
    assert_eq!(parse_u64("18446744073709551615"), Some(u64::MAX));
    assert_eq!(parse_u64("18446744073709551616"), None);
    assert_eq!(parse_u64("99999999999999999999x"), None);
    assert_eq!(parse_u64("000042"), Some(42));
    for s in ["1", "+0", "4000", "", "x", "1_000", "\u{663}"] {
        assert_eq!(parse_u64(s), s.parse::<u64>().ok(), "{:?}", s);
    }
}

#[test]
fn scan_interval_defaults_to_4000() {
    assert_eq!(COEnv::scan_interval(None), 4000);
    assert_eq!(COEnv::scan_interval(Some("bad")), 4000);
    assert_eq!(COEnv::scan_interval(Some("250")), 250);
}

#[test]
fn string_parameters() {
    assert_eq!(COEnv::welcome_beacon_uuid(None), "3a91f427-8c56-4ea3-b219-7dc45a8f33e1");
    assert_eq!(COEnv::welcome_beacon_uuid(Some("abc".to_string())), "abc");
    assert_eq!(COEnv::read_env_string(None, "d".to_string()), "d");
    assert_eq!(COEnv::read_env_string(Some("v".to_string()), "d".to_string()), "v");
}
