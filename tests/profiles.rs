use bayesian_ssh::alias::{check_new_alias, AliasError};
use bayesian_ssh::config::AppConfig;
use bayesian_ssh::history::{calculate_stats, HistoryEntry};
use bayesian_ssh::import::{is_importable, parse_ssh_config};
use bayesian_ssh::models::{Connection, Session, SessionStatus};
use bayesian_ssh::services::{direct_connection, new_connection_from_options};

fn config() -> AppConfig {
    let mut c = AppConfig::defaults("/tmp/h.db".to_string(), None);
    c.default_bastion = Some("jump.example.com".to_string());
    c
}

#[test]
fn new_profile_uses_settings() {
    let c = new_connection_from_options(
        &config(),
        "web".to_string(),
        "web.example.com".to_string(),
        None,
        None,
        None,
        None,
        false,
        None,
        None,
        vec!["a".to_string(), "b".to_string(), "a".to_string()],
    );
    assert_eq!(c.user, "admin");
    assert_eq!(c.port, 22);
    assert_eq!(c.bastion.as_deref(), Some("jump.example.com"));
    assert!(c.use_kerberos);
    assert_eq!(c.tags, vec!["a", "b"]);
    assert!(c.last_used.is_none());
    assert!(c.created_at > 1_600_000_000);
    let direct = new_connection_from_options(
        &config(),
        "db".to_string(),
        "db.example.com".to_string(),
        Some("root".to_string()),
        Some(2200),
        None,
        None,
        true,
        None,
        None,
        Vec::new(),
    );
    assert!(direct.bastion.is_none());
    assert!(!direct.use_kerberos);
    assert_eq!(direct.user, "root");
    assert_eq!(direct.port, 2200);
    assert_ne!(c.id, direct.id);
}

#[test]
fn ssh_command_and_arguments() {
    let mut c = direct_connection(&config(), "db.example.com", Some("ops".to_string()), Some(2200), Some(false), None, None, Some("~/.ssh/id".to_string()));
    assert_eq!(c.name, "db.example.com");
    assert_eq!(c.to_ssh_command(), "ssh -i ~/.ssh/id -p 2200 ops@db.example.com");
    assert_eq!(c.ssh_args(), vec!["-i", "~/.ssh/id", "-p", "2200", "ops@db.example.com"]);
    c.apply_overrides(None, None, Some(true), Some("jump".to_string()), false, None, None);
    assert_eq!(c.to_ssh_command(), "ssh -t -A -K -i ~/.ssh/id -p 22 ops@jump ops@db.example.com");
    assert_eq!(c.ssh_args(), vec!["-t", "-A", "-K", "-i", "~/.ssh/id", "-p", "22", "ops@jump", "ops@db.example.com"]);
    c.apply_overrides(None, None, None, None, false, Some("gate".to_string()), None);
    assert_eq!(c.ssh_args()[7], "gate@jump");
    c.apply_overrides(None, None, None, None, true, None, None);
    assert!(c.bastion.is_none() && c.bastion_user.is_none());
}

#[test]
fn edits_rename_and_retag() {
    let mut c: Connection = direct_connection(&config(), "old", None, None, None, None, None, None);
    c.add_tag("keep".to_string());
    c.add_tag("drop".to_string());
    c.apply_edits(
        Some("new".to_string()),
        None,
        None,
        Some(23),
        None,
        None,
        false,
        None,
        None,
        vec!["fresh".to_string(), "keep".to_string()],
        vec!["drop".to_string()],
    );
    assert_eq!(c.name, "new");
    assert_eq!(c.host, "old");
    assert_eq!(c.port, 23);
    assert_eq!(c.tags, vec!["keep", "fresh"]);
    c.remove_tag("keep");
    assert_eq!(c.tags, vec!["fresh"]);
    c.update_last_used();
    assert!(c.last_used.is_some());
}

#[test]
fn ssh_config_host_blocks() {
    let text = "# comment\nUser ignored\nHost web\n  User ops\n  Port 2222\n  IdentityFile ~/.ssh/web\r\n\nHost db *.internal\n  Port nope\nHost db2\n  Port 70000\n";
    let hosts = parse_ssh_config(text);
    assert_eq!(hosts.len(), 3);
    assert_eq!(hosts[0].host, "web");
    assert_eq!(hosts[0].user.as_deref(), Some("ops"));
    assert_eq!(hosts[0].port, Some(2222));
    assert_eq!(hosts[0].identity_file.as_deref(), Some("~/.ssh/web"));
    assert_eq!(hosts[1].host, "db *.internal");
    assert_eq!(hosts[1].port, None);
    assert_eq!(hosts[2].port, None);
    assert!(is_importable("web"));
    assert!(!is_importable("db *.internal"));
    assert!(!is_importable("host?"));
    assert!(parse_ssh_config("").is_empty());
}

#[test]
fn history_statistics() {
    let entry = |status: SessionStatus, code: Option<i32>, duration: Option<i64>| HistoryEntry {
        connection_name: "x".to_string(),
        started_at: 0,
        ended_at: None,
        status,
        exit_code: code,
        duration,
    };
    let entries = vec![
        entry(SessionStatus::Terminated, Some(0), Some(100)),
        entry(SessionStatus::Terminated, Some(255), Some(51)),
        entry(SessionStatus::Error("boom".to_string()), None, None),
        entry(SessionStatus::Active, None, None),
    ];
    let s = calculate_stats(&entries);
    assert_eq!(s.total, 4);
    assert_eq!(s.successful, 1);
    assert_eq!(s.failed, 2);
    assert_eq!(s.avg_duration, 75);
    let neg = vec![entry(SessionStatus::Terminated, Some(0), Some(-7)), entry(SessionStatus::Terminated, Some(0), Some(0))];
    assert_eq!(calculate_stats(&neg).avg_duration, -3);
    assert_eq!(calculate_stats(&Vec::new()).avg_duration, 0);
}

#[test]
fn session_lifecycle() {
    let conn = direct_connection(&config(), "h", None, None, None, None, None, None);
    let mut s = Session::new(conn);
    assert!(matches!(s.status, SessionStatus::Starting));
    s.mark_active(42);
    assert!(s.is_active());
    assert_eq!(s.pid, Some(42));
    s.mark_terminated_at(0, s.started_at + 90);
    assert!(!s.is_active());
    assert_eq!(s.duration_at(0), 90);
    s.mark_error_at("lost".to_string(), s.started_at + 5);
    assert!(matches!(s.status, SessionStatus::Error(_)));
    assert_eq!(s.duration_at(0), 5);
}

#[test]
fn new_alias_rules() {
    assert_eq!(check_new_alias(Some("web".to_string()), true), Err(AliasError::AliasExists("web".to_string())));
    assert_eq!(check_new_alias(None, true), Err(AliasError::NameTaken));
    assert_eq!(check_new_alias(None, false), Ok(()));
}

#[test]
fn running_session_duration_grows_with_time() {
    let conn = direct_connection(&config(), "h", None, None, None, None, None, None);
    let s = Session::new(conn);
    assert!(s.duration() >= 0);
    assert!(s.duration() < 60);
}
