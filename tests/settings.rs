use golinks::config::{
    AppConfig, LogLevel, _default_false, _default_format, _default_level, _default_links_file,
};

fn with_level(level: &str) -> AppConfig {
    AppConfig::new(
        false,
        false,
        _default_format(),
        level.to_string(),
        _default_links_file(),
        false,
    )
}

#[test]
fn test_configs() {
    let mut configs = AppConfig::default();
    configs.enable_profiling(true);
    let cloned = configs.clone();
    assert_eq!(configs, cloned);
    assert!(cloned.profiling_enabled());
}

#[test]
fn defaults() {
    assert!(!_default_false());
    assert_eq!(_default_format(), "%Y-%m-%d - %H:%M:%S");
    assert_eq!(_default_level(), "info");
    assert_eq!(_default_links_file(), "links.yaml");
    let configs = AppConfig::default();
    assert!(!configs.profiling_enabled());
    assert!(!configs.watch());
    assert!(!configs.log_all());
    assert_eq!(configs.links_file(), "");
}

#[test]
fn getters_return_what_was_given() {
    let configs = AppConfig::new(
        true,
        true,
        "%H".to_string(),
        "debug".to_string(),
        "routes.yaml".to_string(),
        true,
    );
    assert!(configs.profiling_enabled());
    assert!(configs.log_all());
    assert!(configs.watch());
    assert_eq!(configs.time_format(), "%H");
    assert_eq!(configs.log_level(), "debug");
    assert_eq!(configs.links_file(), "routes.yaml");
}

#[test]
fn enable_profiling_changes_only_the_flag() {
    let mut configs = with_level("warn");
    configs.enable_profiling(true);
    assert!(configs.profiling_enabled());
    assert_eq!(configs, {
        let mut other = with_level("warn");
        other.enable_profiling(true);
        other
    });
    configs.enable_profiling(false);
    assert_eq!(configs, with_level("warn"));
}

#[test]
fn level_names_in_any_case() {
    assert_eq!(with_level("off").level(), LogLevel::Off);
    assert_eq!(with_level("ERROR").level(), LogLevel::Error);
    assert_eq!(with_level("Warn").level(), LogLevel::Warn);
    assert_eq!(with_level("info").level(), LogLevel::Info);
    assert_eq!(with_level("dEbUg").level(), LogLevel::Debug);
    assert_eq!(with_level("TRACE").level(), LogLevel::Trace);
}

#[test]
fn unknown_level_is_none() {
    assert_eq!(with_level("verbose").known_level(), None);
    assert_eq!(with_level("").known_level(), None);
    assert_eq!(with_level("infos").known_level(), None);
    assert_eq!(with_level("Info").known_level(), Some(LogLevel::Info));
}

#[test]
fn build_fills_in_defaults() {
    let configs = AppConfig::build(None, None, None, None, None, None);
    assert!(!configs.profiling_enabled());
    assert!(!configs.log_all());
    assert!(!configs.watch());
    assert_eq!(configs.time_format(), "%Y-%m-%d - %H:%M:%S");
    assert_eq!(configs.log_level(), "info");
    assert_eq!(configs.links_file(), "links.yaml");
    assert_eq!(configs.level(), LogLevel::Info);
}

#[test]
fn build_keeps_given_values() {
    let configs = AppConfig::build(
        Some(true),
        Some(false),
        Some("%H".to_string()),
        Some("trace".to_string()),
        Some("other.yaml".to_string()),
        Some(true),
    );
    assert!(configs.profiling_enabled());
    assert!(!configs.log_all());
    assert!(configs.watch());
    assert_eq!(configs.time_format(), "%H");
    assert_eq!(configs.level(), LogLevel::Trace);
    assert_eq!(configs.links_file(), "other.yaml");
}
