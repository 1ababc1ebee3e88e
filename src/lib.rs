pub mod err;
pub mod text;
pub mod scan;
pub mod schema;
pub mod parse;
pub mod select;

pub use err::ProfError;
pub use parse::{FunctionRecord, ParseResult, TotalsRecord, parse_report};
pub use scan::{LineClass, classify_line, parse_count};
pub use schema::{Metric, ProfilerKind, metric_count, schema};
pub use select::{ReportModel, profile_report, select};
