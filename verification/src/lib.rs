//! Local-first clipboard history.

pub mod capture_laws;
pub mod cli;
pub mod cli_laws;
pub mod client;
pub mod clip;
pub mod clip_laws;
pub mod clipboard;
pub mod config;
pub mod error;
pub mod history_laws;
pub mod kind_laws;
pub mod laws;
pub mod license;
pub mod license_error;
pub mod license_laws;
pub mod licensing;
pub mod linux;
pub mod linux_laws;
pub mod machine;
pub mod macos;
pub mod macos_laws;
pub mod message_laws;
pub mod mint;
pub mod model;
pub mod operation_laws;
pub mod paths;
pub mod protocol;
pub mod rule_laws;
pub mod search;
pub mod search_laws;
pub mod seqs;
pub mod server;
pub mod service;
pub mod service_laws;
pub mod store;
pub mod text;
pub mod text_laws;
pub mod trial;
pub mod trusted;
pub mod view;
pub mod watcher;
