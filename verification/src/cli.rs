use vstd::prelude::*;
use vstd::string::StringExecFns;

verus! {

/// The storage formats the command line accepts.
#[derive(Clone, Copy, Debug, PartialEq, Eq, Structural)]
pub enum Format {
    Parquet,
    Delta,
    Json,
    NDJson,
    Csv,
}

/// The tag each format carries in a `stored as` clause.
pub open spec fn spec_format_tag(f: Format) -> Seq<char> {
    match f {
        Format::Parquet => "parquet"@,
        Format::Delta => "deltatable"@,
        Format::Csv => "csv"@,
        Format::Json => "json"@,
        Format::NDJson => "ndjson"@,
    }
}

impl Format {
    /// The storage-format tag written into a `stored as` clause.
    pub fn tag(&self) -> (r: String)
        ensures
            r@ == spec_format_tag(*self),
    {
        match self {
            Format::Parquet => String::from_str("parquet"),
            Format::Delta => String::from_str("deltatable"),
            Format::Csv => String::from_str("csv"),
            Format::Json => String::from_str("json"),
            Format::NDJson => String::from_str("ndjson"),
        }
    }
}

/// The verbosity settings the command line accepts.
#[derive(Clone, Copy, Debug, PartialEq, Eq, Structural)]
pub enum LogLevel {
    Off,
    Info,
    Debug,
}

/// The log filter the chosen verbosity maps to; `Off` maps to none at all.
#[derive(Clone, Copy, Debug, PartialEq, Eq, Structural)]
pub enum LevelFilter {
    Info,
    Debug,
}

/// The parsed command line: the chosen verbosity and the command to run.
pub struct Cli {
    pub log_level: LogLevel,
    pub command: Commands,
}

/// The commands the program offers.
pub enum Commands {
    /// View (and export) tables of a supported storage format.
    View { uri: String, format: Format, query: String, limit: usize, partitions: Option<String> },
    /// Execute a file of SQL statements.
    Execute { sql_file: String },
    /// Print a table's schema.
    Schema { uri: String, format: Format, partitions: Option<String> },
}

impl Cli {
    /// The log filter to install: none when logging is off, otherwise the
    /// filter of the chosen verbosity.
    pub fn get_log_level(&self) -> (r: Option<LevelFilter>)
        ensures
            r == match self.log_level {
                LogLevel::Off => Option::<LevelFilter>::None,
                LogLevel::Info => Option::Some(LevelFilter::Info),
                LogLevel::Debug => Option::Some(LevelFilter::Debug),
            },
    {
        match self.log_level {
            LogLevel::Off => None,
            LogLevel::Info => Some(LevelFilter::Info),
            LogLevel::Debug => Some(LevelFilter::Debug),
        }
    }
}

} // verus!
