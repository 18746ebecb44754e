use ppproxy::config::{
    is_valid_time_format, seconds_until_hhmm, time_string_to_sec, AppConfig, ConfigError,
    ConfigSource,
};

fn full_source() -> ConfigSource {
    ConfigSource {
        username: Some("user".to_string()),
        password: Some("pass".to_string()),
        session_count: Some("3".to_string()),
        discord_token: Some("token".to_string()),
        discord_guild_id: Some("123456789".to_string()),
        logger_level: Some("info".to_string()),
        rotation_time: Some("07:30".to_string()),
        wait_seconds: Some("10".to_string()),
        health_check_enabled: Some("true".to_string()),
        health_check_interval: Some("15".to_string()),
        health_check_threshold: Some("5".to_string()),
        health_check_target: Some("1.1.1.1".to_string()),
        gateway: Some("192.0.2.1".to_string()),
    }
}


fn build_err(src: ConfigSource) -> ConfigError {
    match AppConfig::build(src) {
        Ok(_) => panic!("expected the configuration to be rejected"),
        Err(e) => e,
    }
}

#[test]
fn full_source_builds() {
    let c = AppConfig::build(full_source()).expect("valid configuration");
    assert_eq!(c.username, "user");
    assert_eq!(c.password, "pass");
    assert_eq!(c.session_count, 3);
    assert_eq!(c.ip_rotation.rotation_time, "07:30");
    assert_eq!(c.ip_rotation.wait_seconds, 10);
    assert!(c.ip_rotation.health_check_enabled);
    assert_eq!(c.ip_rotation.health_check_interval_secs, 15);
    assert_eq!(c.ip_rotation.health_check_failure_threshold, 5);
    assert_eq!(c.ip_rotation.health_check_target, "1.1.1.1");
    assert_eq!(c.logger_level, "info");
    assert_eq!(c.discord_token, "token");
    assert_eq!(c.discord_guild_id, Some(123456789));
    assert_eq!(c.gateway, "192.0.2.1");
}

#[test]
fn defaults_fill_optional_values() {
    let mut src = full_source();
    src.session_count = None;
    src.logger_level = None;
    src.health_check_enabled = None;
    src.health_check_interval = None;
    src.health_check_threshold = None;
    src.health_check_target = None;
    src.discord_guild_id = None;
    let c = AppConfig::build(src).expect("valid configuration");
    assert_eq!(c.session_count, 1);
    assert_eq!(c.logger_level, "warn");
    assert!(c.ip_rotation.health_check_enabled);
    assert_eq!(c.ip_rotation.health_check_interval_secs, 30);
    assert_eq!(c.ip_rotation.health_check_failure_threshold, 3);
    assert_eq!(c.ip_rotation.health_check_target, "8.8.8.8");
    assert_eq!(c.discord_guild_id, None);
}

#[test]
fn session_count_above_seven_is_rejected() {
    let mut src = full_source();
    src.session_count = Some("8".to_string());
    assert_eq!(build_err(src), ConfigError::SessionCountTooLarge);
    let mut src = full_source();
    src.session_count = Some("7".to_string());
    assert!(AppConfig::build(src).is_ok());
}

#[test]
fn unparseable_session_count_is_rejected() {
    let mut src = full_source();
    src.session_count = Some("many".to_string());
    assert_eq!(build_err(src), ConfigError::InvalidSessionCount);
}

#[test]
fn missing_required_values_are_rejected_in_order() {
    let mut src = full_source();
    src.username = None;
    assert_eq!(build_err(src), ConfigError::MissingUsername);
    let mut src = full_source();
    src.password = None;
    assert_eq!(build_err(src), ConfigError::MissingPassword);
    let mut src = full_source();
    src.discord_token = None;
    assert_eq!(build_err(src), ConfigError::MissingDiscordToken);
    let mut src = full_source();
    src.rotation_time = None;
    assert_eq!(build_err(src), ConfigError::MissingRotationTime);
    let mut src = full_source();
    src.wait_seconds = None;
    assert_eq!(build_err(src), ConfigError::MissingWaitSeconds);
    let mut src = full_source();
    src.gateway = None;
    assert_eq!(build_err(src), ConfigError::MissingGateway);
}

#[test]
fn rotation_time_accepts_minutes_or_wall_clock() {
    let mut src = full_source();
    src.rotation_time = Some("90".to_string());
    assert!(AppConfig::build(src).is_ok());
    let mut src = full_source();
    src.rotation_time = Some("23:59".to_string());
    assert!(AppConfig::build(src).is_ok());
    let mut src = full_source();
    src.rotation_time = Some("0".to_string());
    assert!(AppConfig::build(src).is_ok());
    let mut src = full_source();
    src.rotation_time = Some("noon".to_string());
    assert_eq!(build_err(src), ConfigError::InvalidRotationTime);
    let mut src = full_source();
    src.rotation_time = Some("24:00".to_string());
    assert_eq!(build_err(src), ConfigError::InvalidRotationTime);
}

#[test]
fn wait_seconds_must_be_a_number() {
    let mut src = full_source();
    src.wait_seconds = Some("soon".to_string());
    assert_eq!(build_err(src), ConfigError::InvalidWaitSeconds);
}

#[test]
fn unparseable_guild_id_is_absent() {
    let mut src = full_source();
    src.discord_guild_id = Some("not-a-number".to_string());
    let c = AppConfig::build(src).expect("valid configuration");
    assert_eq!(c.discord_guild_id, None);
}

#[test]
fn health_check_enabled_parses_the_two_words() {
    let mut src = full_source();
    src.health_check_enabled = Some("false".to_string());
    let c = AppConfig::build(src).expect("valid configuration");
    assert!(!c.ip_rotation.health_check_enabled);
    let mut src = full_source();
    src.health_check_enabled = Some("maybe".to_string());
    let c = AppConfig::build(src).expect("valid configuration");
    assert!(c.ip_rotation.health_check_enabled);
}

#[test]
fn time_format_validation() {
    assert!(is_valid_time_format("07:30"));
    assert!(is_valid_time_format("0:0"));
    assert!(is_valid_time_format("23:59"));
    assert!(!is_valid_time_format("24:00"));
    assert!(!is_valid_time_format("12:60"));
    assert!(!is_valid_time_format("7"));
    assert!(!is_valid_time_format("10:20:30"));
    assert!(!is_valid_time_format(""));
    assert!(!is_valid_time_format(":30"));
    assert!(!is_valid_time_format("ab:cd"));
}

#[test]
fn seconds_until_wall_clock_time() {
    // Later the same day.
    assert_eq!(seconds_until_hhmm(13, 0, 12, 0, 0), 3600);
    // Exactly now: zero wait.
    assert_eq!(seconds_until_hhmm(12, 0, 12, 0, 0), 0);
    // Already past: roll to tomorrow.
    assert_eq!(seconds_until_hhmm(12, 0, 12, 0, 30), 86370);
    assert_eq!(seconds_until_hhmm(0, 0, 23, 59, 59), 1);
}

#[test]
fn time_string_to_sec_rejects_bad_formats() {
    assert_eq!(
        time_string_to_sec("25:00"),
        Err(ConfigError::InvalidRotationTime)
    );
    assert_eq!(
        time_string_to_sec("1200"),
        Err(ConfigError::InvalidRotationTime)
    );
    let secs = time_string_to_sec("12:00").expect("valid wall-clock time");
    assert!(secs < 86400);
}
