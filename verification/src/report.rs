//! The plain data of the report envelope: tool identity, run metadata, the
//! input description, the run summary, and the dataset schema types. The
//! JSON rendering of the envelope is done by the application around this
//! library.
use vstd::prelude::*;

verus! {

/// The current envelope schema version.
pub const SCHEMA_VERSION: &'static str = "1.0";

/// The version of this tool reported in every envelope.
pub const TOOL_VERSION: &'static str = "0.1.0";

/// Identifies the tool that produced the report.
#[derive(Debug, Clone)]
pub struct Tool {
    pub name: String,
    pub version: String,
}

impl Tool {
    /// The tool identity: `datagov` at this crate's version.
    pub fn new() -> (t: Tool)
        ensures
            t.name@ == "datagov"@,
            t.version@ == TOOL_VERSION@,
    {
        Tool { name: String::from_str("datagov"), version: String::from_str(TOOL_VERSION) }
    }
}

/// Run metadata: identity and timing.
#[derive(Debug, Clone)]
pub struct Run {
    /// Time-ordered unique run identifier.
    pub id: String,
    /// RFC 3339 timestamp.
    pub started_at: String,
    /// RFC 3339 timestamp.
    pub completed_at: String,
    pub duration_ms: u64,
}

/// Describes the input a command operated on.
#[derive(Debug, Clone)]
pub struct Input {
    pub uri: String,
    pub format: String,
    pub content_hash: Option<String>,
}

/// Overall run status.
#[derive(Debug, Clone, Copy, PartialEq, Eq, Structural)]
pub enum Status {
    Success,
    Warning,
    Failed,
}

/// Aggregate counts summarizing the run.
#[derive(Debug, Clone, Copy, PartialEq, Eq, Structural)]
pub struct Summary {
    pub status: Status,
    pub errors: u64,
    pub warnings: u64,
    pub info: u64,
}

impl Summary {
    /// A clean success: status `Success` and every count zero.
    pub fn success() -> (s: Summary)
        ensures
            s == (Summary { status: Status::Success, errors: 0, warnings: 0, info: 0 }),
    {
        Summary { status: Status::Success, errors: 0, warnings: 0, info: 0 }
    }
}

impl Default for Summary {
    fn default() -> (s: Summary)
        ensures
            s == (Summary { status: Status::Success, errors: 0, warnings: 0, info: 0 }),
    {
        Summary::success()
    }
}

/// The narrowest data type a reader inferred for a column.
#[derive(Debug, Clone, Copy, PartialEq, Eq, Structural)]
pub enum DataType {
    Boolean,
    Integer,
    Float,
    String,
    Object,
    Array,
    /// Every occurrence of the column was null or absent.
    Null,
    /// Non-null occurrences disagreed on type (JSON/JSONL only).
    Mixed,
}

/// The lowercase label of each data type.
pub open spec fn data_type_name(d: DataType) -> Seq<char> {
    match d {
        DataType::Boolean => "boolean"@,
        DataType::Integer => "integer"@,
        DataType::Float => "float"@,
        DataType::String => "string"@,
        DataType::Object => "object"@,
        DataType::Array => "array"@,
        DataType::Null => "null"@,
        DataType::Mixed => "mixed"@,
    }
}

/// The lowercase label used for a data type in human output.
pub fn data_type_label(data_type: DataType) -> (s: &'static str)
    ensures
        s@ == data_type_name(data_type),
{
    match data_type {
        DataType::Boolean => "boolean",
        DataType::Integer => "integer",
        DataType::Float => "float",
        DataType::String => "string",
        DataType::Object => "object",
        DataType::Array => "array",
        DataType::Null => "null",
        DataType::Mixed => "mixed",
    }
}

/// One column's inferred name, type, and nullability.
#[derive(Debug, Clone)]
pub struct ColumnSchema {
    pub name: String,
    pub data_type: DataType,
    pub nullable: bool,
}

/// Parquet-specific inspection detail, read entirely from file metadata.
#[derive(Debug, Clone)]
pub struct ParquetInfo {
    pub row_groups: Vec<RowGroupInfo>,
    /// Distinct codec names, sorted.
    pub compression_codecs: Vec<String>,
}

/// Metadata for a single Parquet row group.
#[derive(Debug, Clone, Copy, PartialEq, Eq, Structural)]
pub struct RowGroupInfo {
    pub index: usize,
    pub row_count: i64,
    pub compressed_size_bytes: i64,
    pub uncompressed_size_bytes: i64,
}

} // verus!
