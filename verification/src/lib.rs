//! A small screen time tracker: the decisions of the tracking daemon and
//! the text of its daily report, with their contracts.

pub mod afk;
pub mod cli;
pub mod clock;
pub mod db;
pub mod decimal;
pub mod tracker;
pub mod watcher;
