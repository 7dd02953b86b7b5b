//! The rules of Terminal Quest, a focus game for the terminal: a task becomes a
//! boss, typing wears it down, distracting programs hurt the hero, and a long
//! streak of focus earns a mandatory break.
pub mod models;
pub mod text;
pub mod app;
pub mod parser;
pub mod watcher;
pub mod webhook;
pub mod ui;
pub mod laws;
