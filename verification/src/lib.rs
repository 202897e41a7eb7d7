//! A daily logger: the commit grammar, the day's state, the contribution grid.
pub mod app;
pub mod bridge;
pub mod counts;
pub mod day;
pub mod grid;
pub mod parse;
pub mod render;
pub mod report;
pub mod store;
pub mod text;
pub mod types;

pub use parse::ParseError;
pub use types::{Commit, Pillar, Trailer};
