//! A terminal tab-bar engine: style cascade resolution, tab segment
//! rendering, width-constrained line layout with elision, and mapping of
//! mouse clicks back to the tab they landed on.

pub mod ansi;
pub mod flags;
pub mod line;
pub mod segment;
pub mod state;
pub mod style;
pub mod tab;
