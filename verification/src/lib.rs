//! Verified core of the `datagov` data-governance toolkit: the exit-code
//! contract, the typed error, masking, format detection, dataset schema
//! inference, PII validators and recognizers, and SQL dialect handling.

pub mod engine;
pub mod error;
pub mod exit;
pub mod format;
pub mod json_reader;
pub mod literal;
pub mod mask;
pub mod parquet_reader;
pub mod parse_result;
pub mod path;
pub mod profile;
pub mod cli;
pub mod config;
pub mod confidence;
pub mod delimited;
pub mod query;
pub mod recognizer;
pub mod recognizers_file;
pub mod report;
pub mod sample;
pub mod scanner;
pub mod sensitivity;
pub mod source;
pub mod sql;
pub mod text;
pub mod validators;
