use std::collections::BTreeMap;

use berth::resource_limits::{
    is_resource_limit_key, limit_plan, parse_memory_value, parse_resource_limits,
    validate_resource_limit_value, LimitRequest, LimitedResource, ResourceLimits,
    KEY_MAX_FILE_DESCRIPTORS, KEY_MAX_MEMORY,
};

#[test]
fn parse_memory_value_handles_suffixes() {
    assert_eq!(parse_memory_value("512M").unwrap(), 512 * 1024 * 1024);
    assert_eq!(parse_memory_value("1G").unwrap(), 1024 * 1024 * 1024);
    assert_eq!(parse_memory_value("64K").unwrap(), 64 * 1024);
    assert_eq!(parse_memory_value("1048576").unwrap(), 1048576);
}

#[test]
fn parse_memory_value_rejects_invalid() {
    assert!(parse_memory_value("abc").is_err());
    assert!(parse_memory_value("").is_err());
}

#[test]
fn is_resource_limit_key_works() {
    assert!(is_resource_limit_key(KEY_MAX_MEMORY));
    assert!(is_resource_limit_key(KEY_MAX_FILE_DESCRIPTORS));
    assert!(!is_resource_limit_key("token"));
}

#[test]
fn parse_resource_limits_from_config() {
    let mut config = BTreeMap::new();
    config.insert(KEY_MAX_MEMORY.to_string(), "256M".to_string());
    config.insert(KEY_MAX_FILE_DESCRIPTORS.to_string(), "1024".to_string());
    let limits = parse_resource_limits(&config).unwrap();
    assert_eq!(limits.max_memory_bytes, Some(256 * 1024 * 1024));
    assert_eq!(limits.max_file_descriptors, Some(1024));
}

#[test]
fn memory_value_error_messages() {
    assert_eq!(parse_memory_value("").unwrap_err(), "Empty memory value");
    assert_eq!(parse_memory_value("   \t").unwrap_err(), "Empty memory value");
    assert_eq!(parse_memory_value("  abc ").unwrap_err(), "Invalid memory value: abc");
    assert_eq!(parse_memory_value("12X").unwrap_err(), "Invalid memory value: 12X");
    assert_eq!(parse_memory_value("G").unwrap_err(), "Invalid memory value: G");
    assert_eq!(parse_memory_value("-1M").unwrap_err(), "Invalid memory value: -1M");
}

#[test]
fn memory_value_whitespace_and_sign() {
    assert_eq!(parse_memory_value(" 512 M ").unwrap(), 512 * 1024 * 1024);
    assert_eq!(parse_memory_value("+2K").unwrap(), 2048);
    assert_eq!(parse_memory_value("0G").unwrap(), 0);
    assert_eq!(parse_memory_value("16777215K").unwrap(), 16777215 * 1024);
}

#[test]
fn memory_value_lowercase_suffix_is_refused() {
    assert_eq!(parse_memory_value("1g").unwrap_err(), "Invalid memory value: 1g");
}

#[test]
fn validate_memory_and_descriptor_values() {
    assert_eq!(validate_resource_limit_value(KEY_MAX_MEMORY, "1G"), Ok(()));
    assert_eq!(
        validate_resource_limit_value(KEY_MAX_MEMORY, "lots"),
        Err("Invalid memory value: lots".to_string())
    );
    assert_eq!(
        validate_resource_limit_value(KEY_MAX_MEMORY, " "),
        Err("Empty memory value".to_string())
    );
    assert_eq!(validate_resource_limit_value(KEY_MAX_FILE_DESCRIPTORS, " 64 "), Ok(()));
    assert_eq!(
        validate_resource_limit_value(KEY_MAX_FILE_DESCRIPTORS, "many"),
        Err("Invalid value for berth.max-file-descriptors: expected a positive integer".to_string())
    );
    assert_eq!(
        validate_resource_limit_value(KEY_MAX_FILE_DESCRIPTORS, "0"),
        Err("Invalid value for berth.max-file-descriptors: expected a positive integer".to_string())
    );
    assert_eq!(validate_resource_limit_value("token", "anything at all"), Ok(()));
}

#[test]
fn blank_values_set_no_limit() {
    let mut config = BTreeMap::new();
    config.insert(KEY_MAX_MEMORY.to_string(), "  ".to_string());
    config.insert(KEY_MAX_FILE_DESCRIPTORS.to_string(), "".to_string());
    config.insert("token".to_string(), "secret".to_string());
    let limits = parse_resource_limits(&config).unwrap();
    assert_eq!(limits.max_memory_bytes, None);
    assert_eq!(limits.max_file_descriptors, None);
    let empty: BTreeMap<String, String> = BTreeMap::new();
    let limits = parse_resource_limits(&empty).unwrap();
    assert_eq!(limits.max_memory_bytes, None);
    assert_eq!(limits.max_file_descriptors, None);
}

#[test]
fn parse_resource_limits_errors() {
    let mut config = BTreeMap::new();
    config.insert(KEY_MAX_FILE_DESCRIPTORS.to_string(), " ten ".to_string());
    assert_eq!(
        parse_resource_limits(&config).unwrap_err(),
        "Invalid value for berth.max-file-descriptors:  ten "
    );
    config.insert(KEY_MAX_MEMORY.to_string(), "1T".to_string());
    assert_eq!(parse_resource_limits(&config).unwrap_err(), "Invalid memory value: 1T");
}

#[test]
fn validated_value_is_read_back() {
    for (key, value) in [(KEY_MAX_MEMORY, "3M"), (KEY_MAX_FILE_DESCRIPTORS, "77")] {
        assert!(validate_resource_limit_value(key, value).is_ok());
        let mut config = BTreeMap::new();
        config.insert(key.to_string(), value.to_string());
        let limits = parse_resource_limits(&config).unwrap();
        if key == KEY_MAX_MEMORY {
            assert_eq!(limits.max_memory_bytes, Some(3 * 1024 * 1024));
        } else {
            assert_eq!(limits.max_file_descriptors, Some(77));
        }
    }
}

#[test]
fn limit_plan_lists_configured_limits() {
    let none = ResourceLimits::default();
    assert!(limit_plan(&none).is_empty());
    let both = ResourceLimits { max_memory_bytes: Some(4096), max_file_descriptors: Some(32) };
    assert_eq!(
        limit_plan(&both),
        vec![
            LimitRequest { resource: LimitedResource::AddressSpace, value: 4096 },
            LimitRequest { resource: LimitedResource::OpenFiles, value: 32 },
        ]
    );
    let fds = ResourceLimits { max_memory_bytes: None, max_file_descriptors: Some(8) };
    assert_eq!(
        limit_plan(&fds),
        vec![LimitRequest { resource: LimitedResource::OpenFiles, value: 8 }]
    );
}

#[test]
fn overflowing_memory_value_is_an_error() {
    assert_eq!(
        parse_memory_value("17179869184G").unwrap_err(),
        "Invalid memory value: 17179869184G"
    );
    assert!(parse_memory_value("18014398509481984K").is_err());
    assert!(parse_memory_value("99999999999999999999").is_err());
    assert_eq!(
        parse_memory_value("17179869183G").unwrap(),
        17179869183 * 1024 * 1024 * 1024
    );
    assert_eq!(parse_memory_value("18446744073709551615").unwrap(), u64::MAX);
    assert!(validate_resource_limit_value(KEY_MAX_MEMORY, "17179869184G").is_err());
    let mut config = BTreeMap::new();
    config.insert(KEY_MAX_MEMORY.to_string(), "17179869184G".to_string());
    assert_eq!(
        parse_resource_limits(&config).unwrap_err(),
        "Invalid memory value: 17179869184G"
    );
}

#[test]
fn memory_value_same_as_trimmed() {
    for s in ["  4K\t", "\u{3000}x ", " ", "\u{a0}7G\u{2028}", "1 K"] {
        assert_eq!(parse_memory_value(s), parse_memory_value(s.trim()), "{s:?}");
    }
}

#[test]
fn other_keys_do_not_change_limits() {
    let mut a = BTreeMap::new();
    a.insert(KEY_MAX_MEMORY.to_string(), "1K".to_string());
    let mut b = a.clone();
    b.insert("token".to_string(), "zzz".to_string());
    b.insert("berth.max-restarts".to_string(), "nope".to_string());
    let la = parse_resource_limits(&a).unwrap();
    let lb = parse_resource_limits(&b).unwrap();
    assert_eq!(la.max_memory_bytes, lb.max_memory_bytes);
    assert_eq!(la.max_file_descriptors, lb.max_file_descriptors);
}
