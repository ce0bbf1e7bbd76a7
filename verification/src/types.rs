//! Data types shared by the extraction engine and the run report.

pub mod raw_log;
pub mod reports;
pub mod schemas;
pub mod summaries;
