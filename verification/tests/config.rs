use unspace_dock::config::{
    apply_config_value, check_loaded_config, config_path, config_set, load_config_from, normalize_extensions,
    parse_bool, parse_extensions, AgentConfig, ConfigError, DEFAULT_STABLE_CHECK_INTERVAL_BITS,
};
use unspace_dock::numbers::IntErrorKind;

fn valid_config() -> AgentConfig {
    AgentConfig::initial("ysk_test".to_string(), "yard".to_string(), "dock".to_string())
}

#[test]
fn normalize_extensions_lowercases_and_adds_dots() {
    let values = vec!["MP4".to_string(), ".Mov".to_string(), " avi ".to_string()];
    assert_eq!(
        normalize_extensions(&values).unwrap(),
        vec![".mp4", ".mov", ".avi"]
    );
}

#[test]
fn config_validation_rejects_missing_api_key() {
    let mut config = AgentConfig {
        yard_id: "yard".to_string(),
        dock_id: "dock".to_string(),
        api_key: String::new(),
        ..AgentConfig::default()
    };
    assert!(config
        .validate("")
        .unwrap_err()
        .message()
        .contains("API key is required"));
}

#[test]
fn config_value_set_parses_extensions() {
    let mut config = valid_config();
    apply_config_value(&mut config, "watch_extensions", ".MP4,mov", None).unwrap();
    config.validate("").unwrap();
    assert_eq!(config.watch_extensions, vec![".mp4", ".mov"]);
}

#[test]
fn load_config_rejects_unsupported_version() {
    let error = load_config_from(
        r#"{"config_version":2}"#,
        Err("missing field `api_base_url`".to_string()),
        "",
    )
    .unwrap_err();
    assert!(error.message().contains("Unsupported config_version 2"));
}

#[test]
fn redacted_config_hides_api_key() {
    let config = AgentConfig::initial(
        "ysk_secret".to_string(),
        "yard".to_string(),
        "dock".to_string(),
    );
    assert_eq!(config.redacted().api_key, "<redacted>");
}

#[test]
fn redacted_config_keeps_empty_key_and_other_fields() {
    let config = AgentConfig::default();
    let redacted = config.redacted();
    assert_eq!(redacted.api_key, "");
    assert_eq!(redacted.api_base_url, "https://api.unspace.com");
    assert_eq!(redacted.watch_extensions, vec![".mp4", ".mov", ".avi", ".mkv"]);
}

#[test]
fn default_config_matches_documented_values() {
    let config = AgentConfig::default();
    assert_eq!(config.config_version, 1);
    assert_eq!(config.watch_dir, "/var/lib/unspace/uploads");
    assert_eq!(config.heartbeat_file, "/var/lib/unspace/heartbeat");
    assert_eq!(config.heartbeat_interval_secs, 15);
    assert_eq!(config.heartbeat_max_age_secs, 120);
    assert_eq!(config.stable_check_interval_bits, 1.0f64.to_bits());
    assert_eq!(config.stable_required_checks, 3);
    assert_eq!(config.poll_interval_secs, 60);
    assert_eq!(config.max_queue_size_mb, 500);
    assert!(config.annotated_video);
    assert!(!config.multi_track);
    assert_eq!(config.log_level, "info");
}

#[test]
fn validate_trims_base_url_and_prefers_environment_key() {
    let mut config = valid_config();
    config.api_base_url = "https://example.test///".to_string();
    config.validate("  ysk_from_env \n").unwrap();
    assert_eq!(config.api_base_url, "https://example.test");
    assert_eq!(config.api_key, "ysk_from_env");
}

#[test]
fn validate_reports_each_refusal() {
    let cases: Vec<(fn(&mut AgentConfig), ConfigError)> = vec![
        (|c| c.config_version = 3, ConfigError::UnsupportedVersion(3)),
        (|c| c.api_base_url = "///".to_string(), ConfigError::MissingApiBaseUrl),
        (|c| c.yard_id = " \t".to_string(), ConfigError::MissingYardId),
        (|c| c.dock_id = String::new(), ConfigError::MissingDockId),
        (|c| c.api_key = "   ".to_string(), ConfigError::MissingApiKey),
        (|c| c.api_key = "abc_key".to_string(), ConfigError::ApiKeyPrefix),
        (|c| c.stable_check_interval_bits = 0.0f64.to_bits(), ConfigError::NonPositiveStableCheckInterval),
        (|c| c.stable_check_interval_bits = (-2.5f64).to_bits(), ConfigError::NonPositiveStableCheckInterval),
        (|c| c.stable_required_checks = 0, ConfigError::ZeroStableRequiredChecks),
        (|c| c.poll_interval_secs = 0, ConfigError::ZeroPollInterval),
        (|c| c.heartbeat_interval_secs = 0, ConfigError::ZeroHeartbeatInterval),
        (|c| c.heartbeat_max_age_secs = 0, ConfigError::ZeroHeartbeatMaxAge),
        (|c| c.watch_extensions = vec![" ".to_string(), String::new()], ConfigError::NoWatchExtensions),
    ];
    for (change, expected) in cases {
        let mut config = valid_config();
        change(&mut config);
        assert_eq!(config.validate(""), Err(expected));
    }
}

#[test]
fn validate_accepts_nan_interval_as_the_comparison_does() {
    let mut config = valid_config();
    config.stable_check_interval_bits = f64::NAN.to_bits();
    assert_eq!(config.validate(""), Ok(()));
}

#[test]
fn validate_twice_changes_nothing() {
    let mut config = valid_config();
    config.api_base_url = "https://api.unspace.com/".to_string();
    config.watch_extensions = vec![" ..MKV ".to_string(), "".to_string(), ".x y".to_string()];
    config.validate("ysk_env").unwrap();
    let once = config.redacted();
    let once_key = config.api_key.clone();
    config.validate("ysk_env").unwrap();
    assert_eq!(config.watch_extensions, vec![".mkv", ".x y"]);
    assert_eq!(config.watch_extensions, once.watch_extensions);
    assert_eq!(config.api_base_url, once.api_base_url);
    assert_eq!(config.api_key, once_key);
}

#[test]
fn error_messages_match_the_command_line_texts() {
    assert_eq!(
        ConfigError::UnsupportedVersion(2).message(),
        "Unsupported config_version 2. Only version 1 is supported."
    );
    assert_eq!(ConfigError::MissingVersion.message(), "config_version is required and must be 1");
    assert_eq!(
        ConfigError::UnsupportedKey("colour".to_string()).message(),
        "unsupported config key 'colour'"
    );
    assert_eq!(
        ConfigError::InvalidInteger(IntErrorKind::PosOverflow).message(),
        "number too large to fit in target type"
    );
    assert_eq!(
        ConfigError::InvalidJson("EOF while parsing".to_string()).message(),
        "config is not valid JSON: EOF while parsing"
    );
}

#[test]
fn parse_extensions_splits_and_trims() {
    assert_eq!(parse_extensions(" mp4 , .MOV,,"), vec!["mp4", ".MOV", "", ""]);
    assert_eq!(parse_extensions(""), vec![""]);
}

#[test]
fn parse_bool_accepts_the_documented_spellings() {
    for text in ["1", "true", " YES ", "y", "On"] {
        assert_eq!(parse_bool(text), Ok(true));
    }
    for text in ["0", "FALSE", "no", "n", " off"] {
        assert_eq!(parse_bool(text), Ok(false));
    }
    assert_eq!(parse_bool("maybe"), Err(ConfigError::InvalidBool));
}

#[test]
fn apply_config_value_sets_each_kind_of_setting() {
    let mut config = valid_config();
    apply_config_value(&mut config, "watch_dir", "/mnt/drone-footage", None).unwrap();
    assert_eq!(config.watch_dir, "/mnt/drone-footage");
    apply_config_value(&mut config, "heartbeat_interval_secs", "+30", None).unwrap();
    assert_eq!(config.heartbeat_interval_secs, 30);
    apply_config_value(&mut config, "stable_required_checks", "4294967295", None).unwrap();
    assert_eq!(config.stable_required_checks, u32::MAX);
    apply_config_value(&mut config, "multi_track", "yes", None).unwrap();
    assert!(config.multi_track);
    let bits = 2.5f64.to_bits();
    apply_config_value(&mut config, "stable_check_interval_secs", "2.5", Some(bits)).unwrap();
    assert_eq!(config.stable_check_interval_bits, bits);
}

#[test]
fn apply_config_value_refusals_leave_config_unchanged() {
    let mut config = valid_config();
    assert_eq!(
        apply_config_value(&mut config, "stable_required_checks", "4294967296", None),
        Err(ConfigError::InvalidInteger(IntErrorKind::PosOverflow))
    );
    assert_eq!(
        apply_config_value(&mut config, "poll_interval_secs", "", None),
        Err(ConfigError::InvalidInteger(IntErrorKind::Empty))
    );
    assert_eq!(
        apply_config_value(&mut config, "poll_interval_secs", "-5", None),
        Err(ConfigError::InvalidInteger(IntErrorKind::InvalidDigit))
    );
    assert_eq!(
        apply_config_value(&mut config, "stable_check_interval_secs", "fast", None),
        Err(ConfigError::InvalidFloat)
    );
    assert_eq!(
        apply_config_value(&mut config, "stable_check_interval_secs", "", None),
        Err(ConfigError::EmptyFloat)
    );
    assert_eq!(
        apply_config_value(&mut config, "annotated_video", "sometimes", None),
        Err(ConfigError::InvalidBool)
    );
    assert_eq!(
        apply_config_value(&mut config, "config_version", "2", None),
        Err(ConfigError::VersionNotSettable)
    );
    assert_eq!(
        apply_config_value(&mut config, "colour", "red", None),
        Err(ConfigError::UnsupportedKey("colour".to_string()))
    );
    assert_eq!(config.poll_interval_secs, 60);
    assert_eq!(config.stable_required_checks, 3);
    assert!(config.annotated_video);
}

#[test]
fn load_config_from_reports_json_and_schema_problems() {
    assert!(matches!(
        load_config_from("{not json", Err("x".to_string()), ""),
        Err(ConfigError::InvalidJson(_))
    ));
    assert_eq!(
        load_config_from("{}", Err("x".to_string()), "").unwrap_err(),
        ConfigError::MissingVersion
    );
    assert_eq!(
        load_config_from(r#"{"config_version":"1"}"#, Err("x".to_string()), "").unwrap_err(),
        ConfigError::MissingVersion
    );
    assert_eq!(
        load_config_from(r#"{"config_version":1}"#, Err("missing field".to_string()), "")
            .unwrap_err(),
        ConfigError::InvalidSchema("missing field".to_string())
    );
}

#[test]
fn load_config_from_validates_a_readable_config() {
    let loaded = load_config_from(r#"{"config_version":1}"#, Ok(valid_config()), "").unwrap();
    assert_eq!(loaded.api_key, "ysk_test");
    let refused = check_loaded_config(Ok(Some(1)), Ok(AgentConfig::default()), "");
    assert_eq!(refused.unwrap_err(), ConfigError::MissingYardId);
}

#[test]
fn config_path_prefers_the_environment() {
    assert_eq!(config_path(None), "/etc/unspace/config.json");
    assert_eq!(config_path(Some("/tmp/c.json".to_string())), "/tmp/c.json");
    assert_eq!(DEFAULT_STABLE_CHECK_INTERVAL_BITS, 1.0f64.to_bits());
}

#[test]
fn config_set_applies_then_validates() {
    let updated = config_set(valid_config(), "watch_extensions", ".MP4,mov", None, "").unwrap();
    assert_eq!(updated.watch_extensions, vec![".mp4", ".mov"]);
    assert_eq!(
        config_set(valid_config(), "api_key", "secret", None, "").unwrap_err(),
        ConfigError::ApiKeyPrefix
    );
    assert_eq!(
        config_set(valid_config(), "heartbeat_interval_secs", "0", None, "").unwrap_err(),
        ConfigError::ZeroHeartbeatInterval
    );
    assert_eq!(
        config_set(valid_config(), "colour", "red", None, "").unwrap_err(),
        ConfigError::UnsupportedKey("colour".to_string())
    );
}
