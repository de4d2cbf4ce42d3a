use rfid_sfl::config::{Config, LogLevel};

fn config_with_level(level: &str) -> Config {
    Config::get("127.0.0.1".to_string(), true, 8080, level.to_string(), false, 2, true).unwrap()
}

#[test]
fn default_config() {
    let config = Config::default();
    assert_eq!(config.address(), "127.0.0.1");
    assert_eq!(config.port(), 21646);
    assert!(config.log_to_file());
    assert_eq!(config.log_level(), LogLevel::Info);
    assert_eq!(config.max_log_size(), 5);
    assert!(!config.ask_when_writing());
}

#[test]
fn config_keeps_what_was_read() {
    let config =
        Config::get("::1".to_string(), true, 1, "Trace".to_string(), false, 65535, true).unwrap();
    assert_eq!(config.address(), "::1");
    assert_eq!(config.port(), 1);
    assert!(!config.log_to_file());
    assert_eq!(config.log_level(), LogLevel::Trace);
    assert_eq!(config.max_log_size(), 65535);
    assert!(config.ask_when_writing());
}

#[test]
fn config_with_a_bad_address_is_refused() {
    let res = Config::get("localhost".to_string(), false, 1, "Info".to_string(), true, 5, false);
    assert!(res.is_err());
}

#[test]
fn log_levels_by_name() {
    assert_eq!(config_with_level("Off").log_level(), LogLevel::Off);
    assert_eq!(config_with_level("Error").log_level(), LogLevel::Error);
    assert_eq!(config_with_level("Warn").log_level(), LogLevel::Warn);
    assert_eq!(config_with_level("Info").log_level(), LogLevel::Info);
    assert_eq!(config_with_level("Debug").log_level(), LogLevel::Debug);
    assert_eq!(config_with_level("Trace").log_level(), LogLevel::Trace);
}

#[test]
fn unknown_log_level_stands_for_info() {
    assert_eq!(config_with_level("debug").log_level(), LogLevel::Info);
    assert_eq!(config_with_level("").log_level(), LogLevel::Info);
    assert_eq!(config_with_level("Verbose").log_level(), LogLevel::Info);
}

#[test]
fn log_file_size_limit() {
    let config = Config::default();
    assert!(!config.log_is_too_large(0));
    assert!(!config.log_is_too_large(5 * 1024 * 1024));
    assert!(config.log_is_too_large(5 * 1024 * 1024 + 1));
    let none = config_with_level("Info");
    assert!(!none.log_is_too_large(2 * 1024 * 1024));
    assert!(none.log_is_too_large(u64::MAX));
}
