use bayesian_ssh::config::AppConfig;
use bayesian_ssh::models::Connection;
use bayesian_ssh::tui::{App, AppMode, ConfirmAction, Effect, KeyCode, KeyInput, PendingAction};

fn record(id: u128, name: &str, host: &str, tags: &[&str]) -> Connection {
    Connection {
        id,
        name: name.to_string(),
        host: host.to_string(),
        user: "ops".to_string(),
        port: 22,
        bastion: None,
        bastion_user: None,
        use_kerberos: false,
        key_path: None,
        created_at: 0,
        last_used: None,
        tags: tags.iter().map(|t| t.to_string()).collect(),
    }
}

fn key(code: KeyCode) -> KeyInput {
    KeyInput { code, control: false }
}

fn app() -> App {
    App::new(
        AppConfig::defaults("/tmp/h.db".to_string(), None),
        vec![
            record(1, "web-01", "10.0.0.1", &["prod"]),
            record(2, "db-01", "10.0.0.2", &[]),
            record(3, "cache", "cache.internal", &["Prod"]),
        ],
    )
}

#[test]
fn navigation_stays_in_range() {
    let mut a = app();
    a.handle_key_event(key(KeyCode::Up));
    assert_eq!(a.selected_index, 0);
    a.handle_key_event(key(KeyCode::Char('j')));
    assert_eq!(a.selected_index, 1);
    a.handle_key_event(key(KeyCode::PageDown));
    assert_eq!(a.selected_index, 2);
    a.handle_key_event(key(KeyCode::Home));
    assert_eq!(a.selected_index, 0);
    a.handle_key_event(key(KeyCode::End));
    assert_eq!(a.selected_index, 2);
    a.handle_key_event(key(KeyCode::PageUp));
    assert_eq!(a.selected_index, 0);
}

#[test]
fn search_filters_by_name_host_user_and_tags() {
    let mut a = app();
    a.handle_key_event(key(KeyCode::Char('/')));
    assert_eq!(a.mode, AppMode::Search);
    for c in "PROD".chars() {
        a.handle_key_event(key(KeyCode::Char(c)));
    }
    let names: Vec<&str> = a.filtered_connections.iter().map(|c| c.name.as_str()).collect();
    assert_eq!(names, vec!["web-01", "cache"]);
    a.handle_key_event(key(KeyCode::Enter));
    assert_eq!(a.mode, AppMode::Normal);
    assert_eq!(a.status_message.as_deref(), Some("Found 2 connections"));
}

#[test]
fn search_escape_restores_everything() {
    let mut a = app();
    a.handle_key_event(key(KeyCode::Char('/')));
    a.handle_key_event(key(KeyCode::Char('z')));
    assert!(a.filtered_connections.is_empty());
    assert_eq!(a.selected_index, 0);
    a.handle_key_event(key(KeyCode::Backspace));
    assert_eq!(a.filtered_connections.len(), 3);
    a.handle_key_event(key(KeyCode::Char('q')));
    a.handle_key_event(key(KeyCode::Esc));
    assert_eq!(a.search_query, "");
    assert_eq!(a.filtered_connections.len(), 3);
    assert_eq!(a.status_message.as_deref(), Some("Search cancelled"));
}

#[test]
fn connect_after_confirmation() {
    let mut a = app();
    a.handle_key_event(key(KeyCode::Down));
    a.handle_key_event(key(KeyCode::Enter));
    assert_eq!(a.mode, AppMode::Confirm(ConfirmAction::Connect(1)));
    assert_eq!(a.handle_key_event(key(KeyCode::Char('y'))), Effect::Nothing);
    assert!(a.should_quit);
    assert_eq!(a.pending_action, Some(PendingAction::Connect));
    assert_eq!(a.selected_connection.as_ref().map(|c| c.name.as_str()), Some("db-01"));
}

#[test]
fn delete_asks_the_caller() {
    let mut a = app();
    a.handle_key_event(key(KeyCode::Char('d')));
    let effect = a.handle_key_event(key(KeyCode::Enter));
    assert_eq!(effect, Effect::Delete("web-01".to_string()));
    a.finish_delete("web-01", vec![record(2, "db-01", "10.0.0.2", &[])]);
    assert_eq!(a.status_message.as_deref(), Some("Deleted connection: web-01"));
    assert_eq!(a.filtered_connections.len(), 1);
}

#[test]
fn refresh_and_quit_keys() {
    let mut a = app();
    assert_eq!(a.handle_key_event(key(KeyCode::Char('r'))), Effect::Refresh);
    a.finish_refresh(vec![record(9, "new", "h", &[])]);
    assert_eq!(a.status_message.as_deref(), Some("Connections refreshed"));
    assert_eq!(a.filtered_connections.len(), 1);
    a.handle_key_event(key(KeyCode::Char('n')));
    assert!(!a.should_quit);
    a.handle_key_event(KeyInput { code: KeyCode::Char('c'), control: true });
    assert!(a.should_quit);
}

#[test]
fn cancel_confirmation_and_help() {
    let mut a = app();
    a.handle_key_event(key(KeyCode::Char('?')));
    assert_eq!(a.mode, AppMode::Help);
    a.handle_key_event(key(KeyCode::Char('x')));
    assert_eq!(a.mode, AppMode::Help);
    a.handle_key_event(key(KeyCode::Esc));
    assert_eq!(a.mode, AppMode::Normal);
    a.handle_key_event(key(KeyCode::Enter));
    a.handle_key_event(key(KeyCode::Char('n')));
    assert_eq!(a.mode, AppMode::Normal);
    assert_eq!(a.status_message.as_deref(), Some("Action cancelled"));
    a.handle_key_event(key(KeyCode::Char('s')));
    assert_eq!(a.pending_action, Some(PendingAction::ShowDetails));
    assert!(a.get_selected_connection().is_some());
}

#[test]
fn refresh_keeps_selection_in_range() {
    let mut a = app();
    a.handle_key_event(key(KeyCode::End));
    assert_eq!(a.selected_index, 2);
    a.refresh_connections(vec![record(7, "only", "h", &[])]);
    assert_eq!(a.selected_index, 0);
    assert_eq!(a.filtered_connections.len(), 1);
}
