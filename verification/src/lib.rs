//! Verified core of the drill coding assistant.

pub mod agent;
pub mod agents;
pub mod chat;
pub mod cli;
pub mod cloud;
pub mod config;
pub mod editor;
pub mod error;
pub mod fetch;
pub mod form;
pub mod highlight;
pub mod history;
pub mod image;
pub mod inference;
pub mod json;
pub mod keys;
pub mod listen;
pub mod manager;
pub mod mention;
pub mod messages;
pub mod native;
pub mod orchestrator;
pub mod overlay;
pub mod popup;
pub mod provider;
pub mod provider_ui;
pub mod render;
pub mod runtime;
pub mod screen;
pub mod sst;
pub mod stream;
pub mod text;
pub mod tool_text;
pub mod tools;
pub mod turn;
pub mod ui;
pub mod ui_keys;
pub mod wire;
