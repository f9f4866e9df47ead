//! Application settings and the updates that the `config` command applies.

use vstd::prelude::*;
use crate::text::{chars_of, lower_of, lowercase, same_chars};

verus! {

/// Application settings. Paths are held as text.
#[derive(Debug, Clone)]
pub struct AppConfig {
    pub database_path: String,
    pub default_user: String,
    pub default_bastion: Option<String>,
    pub default_bastion_user: Option<String>,
    pub default_port: u16,
    pub use_kerberos_by_default: bool,
    pub ssh_config_path: Option<String>,
    pub log_level: String,
    pub auto_save_history: bool,
    pub max_history_size: usize,
}

/// Settings to change; `None` leaves a setting as it is. For the bastion
/// settings, `Some(None)` clears the setting.
#[derive(Debug, Clone)]
pub struct AppConfigUpdates {
    pub default_user: Option<String>,
    pub default_bastion: Option<Option<String>>,
    pub default_bastion_user: Option<Option<String>>,
    pub default_port: Option<u16>,
    pub use_kerberos_by_default: Option<bool>,
    pub log_level: Option<String>,
    pub auto_save_history: Option<bool>,
    pub max_history_size: Option<usize>,
}

/// The new value of a setting: the update if there is one, else the old value.
pub open spec fn updated<T>(update: Option<T>, old: T) -> T {
    match update {
        Some(v) => v,
        None => old,
    }
}

fn apply<T>(slot: &mut T, update: Option<T>)
    ensures
        *final(slot) == updated(update, *old(slot)),
{
    match update {
        Some(v) => {
            *slot = v;
        },
        None => {},
    }
}

impl AppConfig {
    /// The default settings, with the given database and SSH config paths:
    /// user `admin`, no bastion, port 22, Kerberos on, log level `info`,
    /// history kept, at most 1000 entries.
    pub fn defaults(database_path: String, ssh_config_path: Option<String>) -> (r: AppConfig)
        ensures
            r.database_path == database_path,
            r.default_user@ == "admin"@,
            r.default_bastion is None,
            r.default_bastion_user is None,
            r.default_port == 22,
            r.use_kerberos_by_default,
            r.ssh_config_path == ssh_config_path,
            r.log_level@ == "info"@,
            r.auto_save_history,
            r.max_history_size == 1000,
    {
        AppConfig {
            database_path,
            default_user: String::from_str("admin"),
            default_bastion: None,
            default_bastion_user: None,
            default_port: 22,
            use_kerberos_by_default: true,
            ssh_config_path,
            log_level: String::from_str("info"),
            auto_save_history: true,
            max_history_size: 1000,
        }
    }

    /// Applies the updates that are present; the database and SSH config
    /// paths are not changed.
    pub fn update(&mut self, updates: AppConfigUpdates)
        ensures
            final(self).database_path == old(self).database_path,
            final(self).ssh_config_path == old(self).ssh_config_path,
            final(self).default_user == updated(updates.default_user, old(self).default_user),
            final(self).default_bastion == updated(
                updates.default_bastion,
                old(self).default_bastion,
            ),
            final(self).default_bastion_user == updated(
                updates.default_bastion_user,
                old(self).default_bastion_user,
            ),
            final(self).default_port == updated(updates.default_port, old(self).default_port),
            final(self).use_kerberos_by_default == updated(
                updates.use_kerberos_by_default,
                old(self).use_kerberos_by_default,
            ),
            final(self).log_level == updated(updates.log_level, old(self).log_level),
            final(self).auto_save_history == updated(
                updates.auto_save_history,
                old(self).auto_save_history,
            ),
            final(self).max_history_size == updated(
                updates.max_history_size,
                old(self).max_history_size,
            ),
    {
        apply(&mut self.default_user, updates.default_user);
        apply(&mut self.default_bastion, updates.default_bastion);
        apply(&mut self.default_bastion_user, updates.default_bastion_user);
        apply(&mut self.default_port, updates.default_port);
        apply(&mut self.use_kerberos_by_default, updates.use_kerberos_by_default);
        apply(&mut self.log_level, updates.log_level);
        apply(&mut self.auto_save_history, updates.auto_save_history);
        apply(&mut self.max_history_size, updates.max_history_size);
    }
}

/// How much the program logs.
#[derive(Debug, Clone, Copy, PartialEq, Eq)]
pub enum LogLevel {
    Trace,
    Debug,
    Info,
    Warn,
    Error,
    Off,
}

/// The level a setting names, in any case: `trace`, `debug`, `info`, `warn`
/// or `warning`, `error`, `off` or `none`; any other text means `Info`.
pub open spec fn log_level_spec(level: Seq<char>) -> LogLevel {
    let t = lower_of(level);
    if t == "trace"@ {
        LogLevel::Trace
    } else if t == "debug"@ {
        LogLevel::Debug
    } else if t == "info"@ {
        LogLevel::Info
    } else if t == "warn"@ || t == "warning"@ {
        LogLevel::Warn
    } else if t == "error"@ {
        LogLevel::Error
    } else if t == "off"@ || t == "none"@ {
        LogLevel::Off
    } else {
        LogLevel::Info
    }
}

/// The level a setting names.
pub fn parse_log_level(level: &str) -> (r: LogLevel)
    ensures
        r == log_level_spec(level@),
{
    let lowered = lowercase(level);
    let t = chars_of(lowered.as_str());
    if same_chars(&t, &chars_of("trace")) {
        LogLevel::Trace
    } else if same_chars(&t, &chars_of("debug")) {
        LogLevel::Debug
    } else if same_chars(&t, &chars_of("info")) {
        LogLevel::Info
    } else if same_chars(&t, &chars_of("warn")) || same_chars(&t, &chars_of("warning")) {
        LogLevel::Warn
    } else if same_chars(&t, &chars_of("error")) {
        LogLevel::Error
    } else if same_chars(&t, &chars_of("off")) || same_chars(&t, &chars_of("none")) {
        LogLevel::Off
    } else {
        LogLevel::Info
    }
}

} // verus!
