//! Weekly aggregation of cycling session records.

pub mod agg;
pub mod color;
pub mod render;
pub mod report;
pub mod text;
pub mod time;
