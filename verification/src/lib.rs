//! Verified core of a lightweight desktop client for a web messenger.

pub mod text;
pub mod json;
pub mod encoding;
pub mod filter;
pub mod ua_gen;
pub mod settings;
pub mod ui;
pub mod autostart;
pub mod single_instance;
pub mod tray;
