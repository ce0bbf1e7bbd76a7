//! Entity types that can be extracted, one module each.

pub mod event_columns;
pub mod logs;
