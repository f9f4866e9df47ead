//! Connection-profile discovery: fuzzy matching, relevance ranking and the
//! interactive disambiguation protocol, with their supporting models.

pub mod alias;
pub mod config;
pub mod discovery;
pub mod format;
pub mod history;
pub mod import;
pub mod laws;
pub mod matcher;
pub mod models;
pub mod protocol;
pub mod scorer;
pub mod services;
pub mod stats;
pub mod text;
pub mod tui;
