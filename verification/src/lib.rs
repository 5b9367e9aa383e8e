//! Verified core of herdr-palette, a command palette for the herdr terminal
//! multiplexer.

pub mod text;
pub mod json;
pub mod toml_doc;
pub mod paths;
pub mod custom;
pub mod prompt;
pub mod fatal;
pub mod origin;
pub mod ui;
pub mod keys;
pub mod catalog;
pub mod rows;
pub mod send;
pub mod resolve;
pub mod actions;
pub mod launch;
pub mod ipc;
pub mod herdr;
pub mod flow;
pub mod session;
pub mod open;
pub mod runner;
