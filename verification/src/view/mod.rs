//! What the two pages of the app show: the cheatsheet overlay and the
//! settings page.

pub mod cheatsheet;
pub mod settings;
