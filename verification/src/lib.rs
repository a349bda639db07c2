//! Search Unicode code points by their canonical names, and drive the state
//! of a terminal picker around that search.

pub mod tui;
pub mod unicode;
