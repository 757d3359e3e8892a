//! A dashboard model for a directory of git clones: what state each clone is
//! in relative to its upstream, how the scan decides which git queries to run,
//! how the results are ordered, and what the dashboard shows.

pub mod repo;
pub mod text;
pub mod scan;
pub mod order;
pub mod ui;
pub mod cli;
