//! Verified core of the `cb` voice assistant: version rules, sentence
//! splitting, wake-word matching, daemon health rules, the speech service's
//! binary frame codec, configuration migration, and the text the assistant
//! shows and logs.
pub mod audio;
pub mod calendar;
pub mod cli;
pub mod cmd;
pub mod config;
pub mod domain;
pub mod history;
pub mod i18n;
pub mod json;
pub mod llm;
pub mod log;
pub mod pipeline;
pub mod platform;
pub mod speech;
pub mod text;
pub mod ui;
pub mod update_check;
