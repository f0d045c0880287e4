//! The cheatsheet model: bindings grouped by action, actions grouped into
//! categories, and the search over them.

pub mod action;
pub mod binding;
pub mod keys;
pub mod categories;
pub mod localize;
pub mod group;
pub mod model;
pub mod search;
pub mod laws;

pub use model::{Category, CheatsheetModel, Entry};
pub use search::{MatchedCategory, Search};
