//! Alert rules: what they watch for, how they are evaluated against scans, and how
//! fired alerts are recorded.

pub mod models;
pub mod evaluator;
pub mod manager;
pub mod rule_id;
pub mod notifier;
pub mod runner;
pub mod config;

