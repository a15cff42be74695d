//! What the terminal interface shows and how its editors change: the texts and the
//! state, without the drawing.

pub mod alert_rules;
pub mod ports_table;
pub mod alerts;
pub mod details;
