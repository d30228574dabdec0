pub mod aggregate;
pub mod authors;
pub mod commands;
pub mod dates;
pub mod error;
pub mod fetch_line;
pub mod git;
pub mod graph;
pub mod prune;
pub mod pruning;
pub mod text;
pub mod timerange;
