//! Verified core of a terminal log viewer: log parsing, filtering,
//! scrolling state, layout measurement and highlighting.

pub mod text;
pub mod timestamp;
pub mod json;
pub mod parser;
pub mod theme;
pub mod config;
pub mod app;
pub mod inputs;
pub mod layout;
pub mod view;
pub mod sources;
pub mod events;
pub mod cli;
pub mod laws;
pub mod text_laws;
