use bayesian_ssh::discovery::{ConnectionStore, DISCOVERY_LIMIT, RECENT_LIMIT};
use bayesian_ssh::models::Connection;
use bayesian_ssh::protocol::{
    capitalize_first, classify_selection, confirm_answer, confirm_prompt, question_with_hint,
    selection_prompt, Disambiguation, Notice, Outcome, Phase, SelectionInput, Step,
};

const NOW: i64 = 1_700_000_000;

fn record(id: u128, name: &str, last_used: Option<i64>) -> Connection {
    Connection {
        id,
        name: name.to_string(),
        host: format!("{}.example.com", id),
        user: "ops".to_string(),
        port: 22,
        bastion: None,
        bastion_user: None,
        use_kerberos: false,
        key_path: None,
        created_at: NOW - 100_000,
        last_used,
        tags: Vec::new(),
    }
}

fn resolved_name(step: &Step) -> Option<String> {
    match step {
        Step::Done(Outcome::Resolved(c)) => Some(c.name.clone()),
        _ => None,
    }
}

#[test]
fn confirm_single_flow() {
    let store = ConnectionStore::new(vec![
        record(1, "stag.ign-box", Some(NOW - 10)),
        record(2, "prod-db", Some(NOW - 20)),
    ])
    .unwrap();
    let mut session = Disambiguation::new("stagign", false);
    let found = store.fuzzy_search_connections(&session.query(), DISCOVERY_LIMIT, NOW);
    assert_eq!(found.len(), 1);
    let step = session.on_candidates(found);
    assert!(matches!(step, Step::Confirm));
    assert_eq!(session.phase(), Phase::ConfirmSingle);
    assert_eq!(confirm_prompt("edit"), "Edit this connection? [Y/n]: ");
    let step = session.on_line("");
    assert_eq!(resolved_name(&step).as_deref(), Some("stag.ign-box"));
}

#[test]
fn confirm_single_declined() {
    let mut session = Disambiguation::new("x", false);
    session.on_candidates(vec![record(1, "x-box", None)]);
    let step = session.on_line("no");
    assert!(matches!(step, Step::Done(Outcome::Cancelled)));
    assert_eq!(session.phase(), Phase::Cancelled);
}

#[test]
fn single_match_auto_selected() {
    let mut session = Disambiguation::new("x", true);
    let step = session.on_candidates(vec![record(1, "x-box", None)]);
    assert_eq!(resolved_name(&step).as_deref(), Some("x-box"));
}

fn search_again_then_pick(auto_select_single: bool) {
    let store = ConnectionStore::new(vec![
        record(1, "db-west", Some(NOW - 10)),
        record(2, "db-east", Some(NOW - 20)),
        record(3, "db-north", Some(NOW - 30)),
    ])
    .unwrap();
    let mut session = Disambiguation::new("db", auto_select_single);
    let found = store.fuzzy_search_connections(&session.query(), DISCOVERY_LIMIT, NOW);
    assert_eq!(found.len(), 3);
    assert!(matches!(session.on_candidates(found), Step::Choose));
    assert!(matches!(session.on_line("s"), Step::AskSearchTerm));
    let query = match session.on_line("db-east") {
        Step::Discover(q) => q,
        other => panic!("unexpected step {:?}", other),
    };
    assert_eq!(query, "db-east");
    assert!(session.candidates().is_empty());
    let found = store.fuzzy_search_connections(&query, DISCOVERY_LIMIT, NOW);
    assert_eq!(found.len(), 1);
    assert!(matches!(session.on_candidates(found), Step::Choose));
    assert_eq!(session.phase(), Phase::ChooseMany);
    assert_eq!(session.candidates().len(), 1);
    assert_eq!(resolved_name(&session.on_line("1")).as_deref(), Some("db-east"));
}

#[test]
fn choose_many_with_search_again() {
    search_again_then_pick(false);
}

#[test]
fn choose_many_with_search_again_auto_select() {
    search_again_then_pick(true);
}

#[test]
fn choose_many_reprompts_and_picks() {
    let mut session = Disambiguation::new("db", false);
    session.on_candidates(vec![record(1, "db-a", None), record(2, "db-b", None)]);
    assert!(matches!(session.on_line("7"), Step::Reprompt(Notice::OutOfRange)));
    assert!(matches!(session.on_line("what"), Step::Reprompt(Notice::Invalid)));
    assert!(matches!(session.on_line("s"), Step::AskSearchTerm));
    assert!(matches!(session.on_line("   "), Step::Reprompt(Notice::EmptySearchTerm)));
    assert_eq!(session.phase(), Phase::ChooseMany);
    assert_eq!(resolved_name(&session.on_line(" 2 ")).as_deref(), Some("db-b"));
}

#[test]
fn choose_many_quit() {
    let mut session = Disambiguation::new("db", false);
    session.on_candidates(vec![record(1, "db-a", None), record(2, "db-b", None)]);
    assert!(matches!(session.on_line("Quit"), Step::Done(Outcome::Cancelled)));
}

#[test]
fn no_match_with_empty_fallback_cancels() {
    let store = ConnectionStore::new(Vec::new()).unwrap();
    let mut session = Disambiguation::new("anything", false);
    let found = store.fuzzy_search_connections(&session.query(), DISCOVERY_LIMIT, NOW);
    let step = session.on_candidates(found);
    assert!(matches!(step, Step::FetchRecent));
    let step = session.on_recent(store.get_recent_connections(RECENT_LIMIT));
    assert!(matches!(step, Step::Done(Outcome::Cancelled)));
}

#[test]
fn no_match_offers_recent() {
    let mut session = Disambiguation::new("zzz", false);
    assert!(matches!(session.on_candidates(Vec::new()), Step::FetchRecent));
    let recent: Vec<Connection> = (0..7).map(|i| record(i, &format!("r{}", i), Some(NOW - i as i64))).collect();
    assert!(matches!(session.on_recent(recent), Step::Choose));
    assert_eq!(session.candidates().len(), 5);
    assert_eq!(resolved_name(&session.on_line("5")).as_deref(), Some("r4"));
}

#[test]
fn selection_input_readings() {
    assert_eq!(classify_selection(" 2 ", 3), SelectionInput::Pick(1));
    assert_eq!(classify_selection("+1", 3), SelectionInput::Pick(0));
    assert_eq!(classify_selection("4", 3), SelectionInput::OutOfRange);
    assert_eq!(classify_selection("0", 3), SelectionInput::OutOfRange);
    assert_eq!(classify_selection("abc", 3), SelectionInput::Invalid);
    assert_eq!(classify_selection("", 3), SelectionInput::Invalid);
    assert_eq!(classify_selection("99999999999999999999999", 3), SelectionInput::Invalid);
    assert_eq!(classify_selection("Q", 3), SelectionInput::Quit);
    assert_eq!(classify_selection("quit", 3), SelectionInput::Quit);
    assert_eq!(classify_selection("S", 3), SelectionInput::SearchAgain);
    assert_eq!(classify_selection("search", 3), SelectionInput::SearchAgain);
}

#[test]
fn confirm_answers() {
    assert!(confirm_answer("", true));
    assert!(!confirm_answer("  ", false));
    assert!(confirm_answer("YES", false));
    assert!(confirm_answer(" y ", false));
    assert!(!confirm_answer("n", true));
    assert!(!confirm_answer("yep", true));
}

#[test]
fn capitalize_first_letter() {
    assert_eq!(capitalize_first("connect to"), "Connect to");
    assert_eq!(capitalize_first(""), "");
    assert_eq!(capitalize_first("\u{df}x"), "SSx");
}

#[test]
fn prompt_texts() {
    assert_eq!(
        selection_prompt(false, "edit", 3),
        "Select connection to edit [1-3, 's' to search again, 'q' to quit]: "
    );
    assert_eq!(
        selection_prompt(true, "connect to", 5),
        "Select recent connection to connect to [1-5, 's' to search again, 'q' to quit]: "
    );
    assert_eq!(question_with_hint("Remove 'x'?", false), "Remove 'x'? [y/N]: ");
    assert_eq!(question_with_hint("Go?", true), "Go? [Y/n]: ");
}
