//! Columnar accumulation of event logs and run reports for chain data extraction.
//!
//! A batch of raw logs is stored, row by row, in the columns that a schema asks
//! for, and decoded event fields are merged into dynamic columns. The outcome
//! of a job is turned into the record that its report holds, and the path of
//! the report is worked out from the start of the job.

pub mod datasets;
pub mod types;

pub use datasets::logs::{process_logs, LogColumns, Logs};
pub use types::raw_log::{RawLog, U256};
pub use types::reports::{
    build_report, get_cryo_version, get_report_path, prepare_report, report_dir, report_filename,
    report_path, serialize_summary, start_timestamp, ExecutionEnv, FileOutput, FreezeReport,
};
pub use types::schemas::{ColumnType, Datatype, Schemas, Table};
pub use types::summaries::{FreezeSummary, SerializedFreezeSummary};
