//! Port and process monitoring: alert rules, their evaluation, the parsing of
//! platform connection tables, and the state of the interactive monitor.

pub mod text;
pub mod models;
pub mod alerts;
pub mod events;
pub mod backends;
pub mod ui;
pub mod app;
pub mod daemon;
pub mod ip;
