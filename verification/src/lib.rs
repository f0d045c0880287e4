//! Keyboard-shortcut cheatsheet model for the COSMIC desktop.

pub mod app_state;
pub mod cli;
pub mod config;
pub mod ids;
pub mod keycapture;
pub mod path;
pub mod registration;
pub mod sandbox;
pub mod seqs;
pub mod shortcuts;
pub mod text;
pub mod view;

pub use shortcuts::action::Action;
pub use shortcuts::binding::{Binding, Modifiers};
