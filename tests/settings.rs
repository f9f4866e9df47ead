use bayesian_ssh::config::{parse_log_level, AppConfig, AppConfigUpdates, LogLevel};

fn no_updates() -> AppConfigUpdates {
    AppConfigUpdates {
        default_user: None,
        default_bastion: None,
        default_bastion_user: None,
        default_port: None,
        use_kerberos_by_default: None,
        log_level: None,
        auto_save_history: None,
        max_history_size: None,
    }
}

#[test]
fn defaults_hold_documented_values() {
    let c = AppConfig::defaults("/tmp/h.db".to_string(), None);
    assert_eq!(c.default_user, "admin");
    assert_eq!(c.default_port, 22);
    assert!(c.use_kerberos_by_default);
    assert_eq!(c.log_level, "info");
    assert_eq!(c.max_history_size, 1000);
    assert!(c.default_bastion.is_none());
}

#[test]
fn update_applies_present_fields_only() {
    let mut c = AppConfig::defaults("/tmp/h.db".to_string(), Some("/home/u/.ssh/config".to_string()));
    let mut u = no_updates();
    u.default_user = Some("deploy".to_string());
    u.default_bastion = Some(Some("jump.example.com".to_string()));
    u.default_port = Some(2222);
    c.update(u);
    assert_eq!(c.default_user, "deploy");
    assert_eq!(c.default_bastion.as_deref(), Some("jump.example.com"));
    assert_eq!(c.default_port, 2222);
    assert_eq!(c.log_level, "info");
    let mut u = no_updates();
    u.default_bastion = Some(None);
    c.update(u);
    assert!(c.default_bastion.is_none());
    assert_eq!(c.default_user, "deploy");
}

#[test]
fn log_levels() {
    assert_eq!(parse_log_level("TRACE"), LogLevel::Trace);
    assert_eq!(parse_log_level("debug"), LogLevel::Debug);
    assert_eq!(parse_log_level("Warning"), LogLevel::Warn);
    assert_eq!(parse_log_level("warn"), LogLevel::Warn);
    assert_eq!(parse_log_level("error"), LogLevel::Error);
    assert_eq!(parse_log_level("none"), LogLevel::Off);
    assert_eq!(parse_log_level("bogus"), LogLevel::Info);
}
