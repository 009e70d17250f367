use datafusion::arrow::array::{ArrayRef, Int64Array, StringArray};
use datafusion::arrow::datatypes::{DataType as ArrowDataType, Field, Schema};
use datafusion::arrow::record_batch::RecordBatch;
use datagov::json_reader::parse_json_document;
use std::sync::Arc;
use datagov::delimited::{reader_for, Cell, DelimitedReader, Reader};
use datagov::engine::{sanitize_table_name, unique_table_name};
use datagov::error::DatagovError;
use datagov::exit::ExitCode;
use datagov::format::{detect, Format, ReadFailure};
use datagov::json_reader::{
    jsonl_record_lines, records_from_document, records_from_jsonl, JsonDocument, JsonField, JsonKind,
    JsonReader,
};
use datagov::parquet_reader::{ParquetColumn, ParquetMetadata, ParquetReader, ParquetRowGroup, PhysicalType};
use datagov::profile::{
    classify_column, count_rows_sql, map_arrow_type, profile_sql, sample_sql, select_columns, select_fields,
    top_values_sql, ArrowType,
};
use datagov::query::plan_references;
use datagov::report::DataType;
use datagov::sample::mask_sample_rows;
use datagov::source::Source;

fn strings(v: &[&str]) -> Vec<String> {
    v.iter().map(|s| s.to_string()).collect()
}

fn rows(v: &[&[&str]]) -> Vec<Vec<String>> {
    v.iter().map(|r| strings(r)).collect()
}

#[test]
fn replaces_non_alphanumeric_characters() {
    assert_eq!(sanitize_table_name("customers"), "customers");
    assert_eq!(sanitize_table_name("my-data file"), "my_data_file");
}

#[test]
fn prefixes_a_leading_digit() {
    assert_eq!(sanitize_table_name("2024-sales"), "t_2024_sales");
}

#[test]
fn empty_stem_becomes_t() {
    assert_eq!(sanitize_table_name(""), "t");
}

#[test]
fn unique_table_names_get_a_numeric_suffix() {
    let used = strings(&["customers", "customers_2"]);
    assert_eq!(unique_table_name("customers", &used), "customers_3");
    assert_eq!(unique_table_name("orders", &used), "orders");
}

#[test]
fn extension_detection_is_case_insensitive() {
    assert_eq!(detect("data.CSV", None, Ok(b"".as_slice())).unwrap(), Format::Csv);
    assert_eq!(detect("data.Tsv", None, Ok(b"".as_slice())).unwrap(), Format::Tsv);
    assert_eq!(detect("data.JSON", None, Ok(b"".as_slice())).unwrap(), Format::Json);
    assert_eq!(detect("data.JSONL", None, Ok(b"".as_slice())).unwrap(), Format::Jsonl);
    assert_eq!(detect("data.ndjson", None, Ok(b"".as_slice())).unwrap(), Format::Jsonl);
    assert_eq!(detect("data.PARQUET", None, Ok(b"".as_slice())).unwrap(), Format::Parquet);
}

#[test]
fn type_flag_overrides_extension() {
    assert_eq!(detect("data.csv", Some("json"), Ok(b"".as_slice())).unwrap(), Format::Json);
}

#[test]
fn type_flag_rejects_unknown_names() {
    let err = detect("data.csv", Some("xml"), Ok(b"".as_slice())).unwrap_err();
    assert_eq!(err.exit_code(), ExitCode::InvalidArgs);
}

#[test]
fn stdin_without_type_flag_is_invalid_args() {
    let err = detect("-", None, Ok(b"".as_slice())).unwrap_err();
    assert_eq!(err.exit_code(), ExitCode::InvalidArgs);
}

#[test]
fn stdin_without_type_exits_2() {
    let err = detect("-", None, Ok(b"irrelevant".as_slice())).unwrap_err();
    assert_eq!(err.exit_code().code(), 2);
}

#[test]
fn stdin_with_type_flag_succeeds() {
    assert_eq!(detect("-", Some("jsonl"), Ok(b"".as_slice())).unwrap(), Format::Jsonl);
}

#[test]
fn missing_file_with_unrecognized_extension_is_input_not_found() {
    let failure = ReadFailure::Open("No such file or directory (os error 2)".to_string());
    let err = detect("missing.dat", None, Err(failure)).unwrap_err();
    assert_eq!(err.exit_code(), ExitCode::InputNotFound);
    assert_eq!(err.message(), "cannot open missing.dat: No such file or directory (os error 2)");
    assert_eq!(err.remediation(), "check that missing.dat exists and is readable");
    let err = detect("odd.dat", None, Err(ReadFailure::Read("Is a directory (os error 21)".to_string()))).unwrap_err();
    assert_eq!(err.exit_code(), ExitCode::Internal);
    assert_eq!(err.message(), "failed to read odd.dat: Is a directory (os error 21)");
}

#[test]
fn content_sniffing_decides_unknown_extensions() {
    assert_eq!(detect("data.txt", None, Ok(b"a,b,c\n1,2,3\n".as_slice())).unwrap(), Format::Csv);
    assert_eq!(detect("data.txt", None, Ok(b"a\tb\n1\t2\n".as_slice())).unwrap(), Format::Tsv);
    assert_eq!(detect("data.txt", None, Ok(b"  [ {\"a\": 1} ]".as_slice())).unwrap(), Format::Json);
    let err = detect("README.md", None, Ok(b"# Examples\n\nSome prose here.\n".as_slice())).unwrap_err();
    assert_eq!(err.exit_code(), ExitCode::UnsupportedInput);
}

#[test]
fn unsupported_extension_exits_4() {
    let plan = plan_references("SELECT * FROM 'examples/customers.json'");
    let rejected = plan.actions.iter().any(|a| match a {
        datagov::query::ReferenceAction::Reject(e) => e.exit_code() == ExitCode::UnsupportedInput,
        _ => false,
    });
    assert!(rejected);
}

#[test]
fn boolean_column_narrows_to_boolean() {
    let reader = DelimitedReader { delimiter: b',' };
    let summary = reader.inspect(b"flag\ntrue\nfalse\ntrue\n").unwrap();
    assert_eq!(summary.schema[0].data_type, DataType::Boolean);
    assert!(!summary.schema[0].nullable);
    assert_eq!(summary.row_count, 3);
}

#[test]
fn mixed_text_and_numbers_narrows_to_string() {
    let reader = DelimitedReader { delimiter: b',' };
    let summary = reader.inspect(b"value\n123\nabc\n456\n").unwrap();
    assert_eq!(summary.schema[0].data_type, DataType::String);
}

#[test]
fn empty_values_count_as_null_and_mark_nullable() {
    let reader = DelimitedReader { delimiter: b',' };
    let summary = reader.inspect(b"value,other\n1,x\n,y\n3,z\n").unwrap();
    assert!(summary.schema[0].nullable);
    assert_eq!(summary.schema[0].data_type, DataType::Integer);
    assert_eq!(summary.row_count, 3);
}

#[test]
fn tsv_delimiter_is_used() {
    let reader = DelimitedReader { delimiter: b'\t' };
    let summary = reader.inspect(b"a\tb\n1\t2\n").unwrap();
    assert_eq!(summary.format, "tsv");
    assert_eq!(summary.column_count, 2);
}

#[test]
fn delimited_summary_types_memory_and_samples() {
    let reader = DelimitedReader { delimiter: b',' };
    let headers = strings(&["id", "score", "name", "flag", "empty"]);
    let records = rows(&[&["1", "1.5", "ann", "true", ""], &["-2", "inf", "bo", "false"], &["3", "2e3", "", "true", ""]]);
    let s = reader.summarize(&headers, &records);
    assert_eq!(s.format, "csv");
    let types: Vec<DataType> = s.schema.iter().map(|c| c.data_type).collect();
    assert_eq!(types, vec![DataType::Integer, DataType::Float, DataType::String, DataType::Boolean, DataType::Null]);
    let nullable: Vec<bool> = s.schema.iter().map(|c| c.nullable).collect();
    assert_eq!(nullable, vec![false, false, true, false, true]);
    // id 3*8, score 3*8, name (3+24)+(2+24)+1, flag 3*1, empty 3*1
    assert_eq!(s.approx_memory_bytes, 24 + 24 + 54 + 3 + 3);
    assert_eq!(s.sample_rows.len(), 3);
    assert_eq!(s.sample_rows[1][0], Cell::Integer(-2));
    assert_eq!(s.sample_rows[1][1], Cell::Float("inf".to_string()));
    assert_eq!(s.sample_rows[2][2], Cell::Null);
    assert_eq!(s.sample_rows[0][3], Cell::Bool(true));
}

#[test]
fn integer_narrowing_follows_the_i64_range() {
    let reader = DelimitedReader { delimiter: b',' };
    let headers = strings(&["a", "b"]);
    let records = rows(&[&["-9223372036854775808", "9223372036854775808"]]);
    let s = reader.summarize(&headers, &records);
    assert_eq!(s.schema[0].data_type, DataType::Integer);
    assert_eq!(s.schema[1].data_type, DataType::Float);
    assert_eq!(s.sample_rows[0][0], Cell::Integer(i64::MIN));
}

#[test]
fn malformed_csv_is_an_internal_error() {
    let reader = DelimitedReader { delimiter: b',' };
    let err = reader.inspect(b"a,b\n\xff\xfe,1\n").unwrap_err();
    assert_eq!(err.exit_code(), ExitCode::Internal);
    assert!(err.message().starts_with("failed to read"));
}

#[test]
fn reader_for_picks_the_reader_of_each_format() {
    assert!(matches!(reader_for(Format::Csv), Reader::Delimited(DelimitedReader { delimiter: b',' })));
    assert!(matches!(reader_for(Format::Tsv), Reader::Delimited(DelimitedReader { delimiter: b'\t' })));
    assert!(matches!(reader_for(Format::Jsonl), Reader::Json(JsonReader { jsonl: true })));
    assert!(matches!(reader_for(Format::Parquet), Reader::Parquet(_)));
}

fn field(key: &str, kind: JsonKind, text_bytes: usize) -> JsonField {
    JsonField { key: key.to_string(), kind, text_bytes }
}

#[test]
fn mixed_type_field_is_detected() {
    let doc = JsonDocument::Array(vec![
        Some(vec![field("a", JsonKind::Integer, 0)]),
        Some(vec![field("a", JsonKind::Text, 3)]),
    ]);
    let records = records_from_document(doc).unwrap();
    let s = JsonReader { jsonl: false }.summarize(&records);
    assert_eq!(s.schema[0].data_type, DataType::Mixed);
}

#[test]
fn numeric_field_with_whole_and_fractional_values_narrows_to_float() {
    let doc = JsonDocument::Array(vec![
        Some(vec![field("a", JsonKind::Integer, 0)]),
        Some(vec![field("a", JsonKind::Fractional, 0)]),
    ]);
    let records = records_from_document(doc).unwrap();
    let s = JsonReader { jsonl: false }.summarize(&records);
    assert_eq!(s.schema[0].data_type, DataType::Float);
}

#[test]
fn missing_and_null_fields_are_nullable() {
    let lines = jsonl_record_lines("{\"a\":1}\n{\"a\":null}\n{}\n");
    assert_eq!(lines.len(), 3);
    let parsed = vec![
        Ok(JsonDocument::Object(vec![field("a", JsonKind::Integer, 0)])),
        Ok(JsonDocument::Object(vec![field("a", JsonKind::Null, 0)])),
        Ok(JsonDocument::Object(vec![])),
    ];
    let records = records_from_jsonl(parsed).unwrap();
    let s = JsonReader { jsonl: true }.summarize(&records);
    assert!(s.schema[0].nullable);
    assert_eq!(s.schema[0].data_type, DataType::Integer);
    assert_eq!(s.format, "jsonl");
}

#[test]
fn all_null_field_has_null_data_type() {
    let parsed = vec![
        Ok(JsonDocument::Object(vec![field("a", JsonKind::Null, 0)])),
        Ok(JsonDocument::Object(vec![field("a", JsonKind::Null, 0)])),
    ];
    let records = records_from_jsonl(parsed).unwrap();
    let s = JsonReader { jsonl: true }.summarize(&records);
    assert_eq!(s.schema[0].data_type, DataType::Null);
}

#[test]
fn json_columns_are_in_first_seen_order_with_memory() {
    let doc = JsonDocument::Array(vec![
        Some(vec![field("b", JsonKind::Text, 5), field("a", JsonKind::Bool, 0)]),
        Some(vec![field("c", JsonKind::Array, 0), field("a", JsonKind::Null, 0)]),
    ]);
    let records = records_from_document(doc).unwrap();
    let s = JsonReader { jsonl: false }.summarize(&records);
    let names: Vec<&str> = s.schema.iter().map(|c| c.name.as_str()).collect();
    assert_eq!(names, vec!["b", "a", "c"]);
    assert_eq!(s.column_count, 3);
    assert_eq!(s.row_count, 2);
    // b: 5+24; a: 1 (bool) + 1 (null); c: 24
    assert_eq!(s.approx_memory_bytes, 29 + 2 + 24);
    assert!(s.schema[0].nullable && s.schema[1].nullable && s.schema[2].nullable);
}

#[test]
fn json_document_errors() {
    let err = records_from_document(JsonDocument::Scalar).unwrap_err();
    assert_eq!(err.exit_code(), ExitCode::UnsupportedInput);
    let err = records_from_document(JsonDocument::Array(vec![None])).unwrap_err();
    assert_eq!(err.exit_code(), ExitCode::Internal);
    assert_eq!(err.message(), "a JSON array element is not an object");
    let one = records_from_document(JsonDocument::Object(vec![field("a", JsonKind::Integer, 0)])).unwrap();
    assert_eq!(one.len(), 1);
    let err = records_from_jsonl(vec![Ok(JsonDocument::Scalar)]).unwrap_err();
    assert_eq!(err.message(), "a JSONL line is not a JSON object");
    let err = records_from_jsonl(vec![Err("EOF while parsing".to_string())]).unwrap_err();
    assert_eq!(err.message(), "malformed JSONL line: EOF while parsing");
}

#[test]
fn jsonl_lines_skip_blank_lines_and_strip_crlf() {
    let lines = jsonl_record_lines("{\"a\":1}\r\n   \n\u{3000}\n{\"a\":2}");
    assert_eq!(lines, vec!["{\"a\":1}".to_string(), "{\"a\":2}".to_string()]);
    assert!(jsonl_record_lines("").is_empty());
}

#[test]
fn parquet_metadata_summary() {
    let meta = ParquetMetadata {
        num_rows: 7,
        columns: vec![
            ParquetColumn { name: "id".to_string(), physical_type: PhysicalType::Int64, required: true },
            ParquetColumn { name: "name".to_string(), physical_type: PhysicalType::ByteArray, required: false },
            ParquetColumn { name: "score".to_string(), physical_type: PhysicalType::Double, required: false },
        ],
        row_groups: vec![
            ParquetRowGroup { num_rows: 4, compressed_size: 100, total_byte_size: 300, codecs: strings(&["SNAPPY", "ZSTD(ZstdLevel(1))"]) },
            ParquetRowGroup { num_rows: 3, compressed_size: 90, total_byte_size: 200, codecs: strings(&["SNAPPY", "GZIP(GzipLevel(6))"]) },
        ],
    };
    let (s, info) = ParquetReader.summarize(&meta);
    assert_eq!(s.format, "parquet");
    assert_eq!(s.row_count, 7);
    assert_eq!(s.column_count, 3);
    assert_eq!(s.approx_memory_bytes, 500);
    assert_eq!(s.schema[0].data_type, DataType::Integer);
    assert!(!s.schema[0].nullable);
    assert_eq!(s.schema[1].data_type, DataType::String);
    assert_eq!(s.schema[2].data_type, DataType::Float);
    assert_eq!(info.row_groups.len(), 2);
    assert_eq!(info.row_groups[1].index, 1);
    assert_eq!(info.row_groups[1].uncompressed_size_bytes, 200);
    assert_eq!(info.compression_codecs, strings(&["GZIP(GzipLevel(6))", "SNAPPY", "ZSTD(ZstdLevel(1))"]));
}

#[test]
fn sensitive_sample_cells_are_masked() {
    let rows = vec![vec![
        ("email".to_string(), Some("alice@example.com".to_string())),
        ("city".to_string(), Some("Paris".to_string())),
        ("phone".to_string(), None),
        ("ssn".to_string(), Some("123".to_string())),
    ]];
    let masked = mask_sample_rows(&rows);
    assert_eq!(masked[0][0], Some("al…om".to_string()));
    assert_eq!(masked[0][1], None);
    assert_eq!(masked[0][2], None);
    assert_eq!(masked[0][3], Some("●●●".to_string()));
}

#[test]
fn unknown_column_is_invalid_args() {
    let all = strings(&["id", "email", "state"]);
    let requested = strings(&["state", "not_a_real_column"]);
    let err = select_columns(Some(&requested), &all).unwrap_err();
    assert_eq!(err.exit_code(), ExitCode::InvalidArgs);
    assert_eq!(err.message(), "unknown column 'not_a_real_column'");
    assert_eq!(err.remediation(), "choose from: id, email, state");
    let err = select_fields(Some(&requested), &all).unwrap_err();
    assert_eq!(err.message(), "unknown field 'not_a_real_column'");
    assert_eq!(select_columns(None, &all).unwrap(), all);
    assert_eq!(select_columns(Some(&strings(&["email"])), &all).unwrap(), strings(&["email"]));
}

#[test]
fn column_classification() {
    let c = classify_column("customer_id", DataType::Integer, 10, 8, 3);
    assert_eq!(c.null_count, 2);
    assert!(c.possible_identifier);
    assert_eq!(c.semantic_type, "identifier");
    assert!(!c.masked);
    let c = classify_column("Email", DataType::String, 10, 10, 10);
    assert!(c.masked);
    assert_eq!(c.semantic_type, "email");
    let c = classify_column("amount", DataType::Float, 10, 12, 4);
    assert_eq!(c.null_count, 0);
    assert!(!c.possible_identifier);
    assert_eq!(c.semantic_type, "numeric");
    let c = classify_column("state", DataType::String, 5, 5, 5);
    assert!(c.possible_identifier);
    let c = classify_column("active", DataType::Boolean, 0, 0, 0);
    assert_eq!(c.semantic_type, "boolean");
}

#[test]
fn profiling_queries() {
    assert_eq!(count_rows_sql("t"), "SELECT COUNT(*) AS total FROM \"t\"");
    assert_eq!(sample_sql("t", 10), "SELECT * FROM \"t\" LIMIT 10");
    assert_eq!(
        top_values_sql("t", "c"),
        "SELECT \"c\" AS value, COUNT(*) AS cnt FROM \"t\" WHERE \"c\" IS NOT NULL GROUP BY \"c\" ORDER BY cnt DESC, value ASC LIMIT 10"
    );
    assert_eq!(
        profile_sql("t", "b", DataType::Boolean),
        "SELECT COUNT(\"b\") AS non_null, COUNT(DISTINCT \"b\") AS distinct_count, MIN(\"b\") AS min_value, MAX(\"b\") AS max_value FROM \"t\""
    );
    let s = profile_sql("t", "n", DataType::Integer);
    assert!(s.contains("APPROX_PERCENTILE_CONT(\"n\", 0.99) AS p99"));
    let s = profile_sql("t", "s", DataType::String);
    assert!(s.contains("AVG(LENGTH(\"s\")) AS len_mean FROM \"t\""));
}

#[test]
fn arrow_types_map_to_report_types() {
    assert_eq!(map_arrow_type(ArrowType::UInt16), DataType::Integer);
    assert_eq!(map_arrow_type(ArrowType::Decimal128), DataType::Float);
    assert_eq!(map_arrow_type(ArrowType::Utf8View), DataType::String);
    assert_eq!(map_arrow_type(ArrowType::ListView), DataType::Array);
    assert_eq!(map_arrow_type(ArrowType::MapType), DataType::Object);
    assert_eq!(map_arrow_type(ArrowType::Other), DataType::String);
}

#[test]
fn source_uri_is_the_path_or_dash() {
    let s = Source::from_path("data/customers.csv", Format::Csv);
    assert_eq!(s.uri(), "data/customers.csv");
    assert_eq!(s.path(), Some("data/customers.csv"));
    let s = Source::from_stdin(Format::Jsonl);
    assert_eq!(s.uri(), "-");
    assert_eq!(s.format(), Format::Jsonl);
    assert!(s.path().is_none());
    let _unused: Option<DatagovError> = None;
}

#[test]
fn json_inspect_parses_and_summarizes_an_array() {
    let reader = datagov::json_reader::JsonReader { jsonl: false };
    let s = reader.inspect(r#"[{"a": 1, "b": "xy"}, {"a": 2.5}]"#).unwrap();
    assert_eq!(s.format, "json");
    assert_eq!(s.row_count, 2);
    assert_eq!(s.column_count, 2);
    assert_eq!(s.schema[0].name, "a");
    assert_eq!(s.schema[0].data_type, DataType::Float);
    assert!(!s.schema[0].nullable);
    assert_eq!(s.schema[1].name, "b");
    assert!(s.schema[1].nullable);
}

#[test]
fn json_inspect_reports_each_kind_of_failure() {
    let json = datagov::json_reader::JsonReader { jsonl: false };
    let e = json.inspect("{not json").unwrap_err();
    assert_eq!(e.exit_code(), ExitCode::Internal);
    assert!(e.message().starts_with("malformed JSON: "));
    let e = json.inspect("42").unwrap_err();
    assert_eq!(e.exit_code(), ExitCode::UnsupportedInput);
    let e = json.inspect("[1, 2]").unwrap_err();
    assert_eq!(e.message(), "a JSON array element is not an object");
    let jsonl = datagov::json_reader::JsonReader { jsonl: true };
    let s = jsonl.inspect("{\"a\": 1}\n\n{\"a\": null, \"c\": true}\n").unwrap();
    assert_eq!(s.format, "jsonl");
    assert_eq!(s.row_count, 2);
    assert_eq!(s.column_count, 2);
    let e = jsonl.inspect("{\"a\": 1}\n[1]\n").unwrap_err();
    assert_eq!(e.message(), "a JSONL line is not a JSON object");
    let e = jsonl.inspect("{\"a\": 1}\n{oops\n").unwrap_err();
    assert!(e.message().starts_with("malformed JSONL line: "));
}

#[test]
fn parse_json_document_reads_fields_and_kinds() {
    match parse_json_document(r#"{"n": 3, "f": 1.5, "s": "héllo", "z": null}"#).unwrap() {
        JsonDocument::Object(fs) => {
            let kinds: Vec<(String, JsonKind, usize)> = fs.into_iter().map(|f| (f.key, f.kind, f.text_bytes)).collect();
            assert!(kinds.contains(&("n".to_string(), JsonKind::Integer, 0)));
            assert!(kinds.contains(&("f".to_string(), JsonKind::Fractional, 0)));
            assert!(kinds.contains(&("s".to_string(), JsonKind::Text, 6)));
            assert!(kinds.contains(&("z".to_string(), JsonKind::Null, 0)));
        }
        other => panic!("expected an object, got {other:?}"),
    }
    assert!(matches!(parse_json_document("[1, {}]").unwrap(), JsonDocument::Array(items) if items.len() == 2 && items[0].is_none()));
    assert!(parse_json_document("nope").is_err());
}

fn parquet_bytes() -> Vec<u8> {
    let schema = Arc::new(Schema::new(vec![
        Field::new("id", ArrowDataType::Int64, false),
        Field::new("name", ArrowDataType::Utf8, true),
    ]));
    let columns: Vec<ArrayRef> = vec![
        Arc::new(Int64Array::from(vec![1, 2, 3])),
        Arc::new(StringArray::from(vec![Some("a"), None, Some("c")])),
    ];
    let batch = RecordBatch::try_new(schema.clone(), columns).unwrap();
    let mut buf = Vec::new();
    let mut writer = parquet::arrow::ArrowWriter::try_new(&mut buf, schema, None).unwrap();
    writer.write(&batch).unwrap();
    writer.close().unwrap();
    buf
}

#[test]
fn parquet_inspect_reads_the_footer_of_a_file() {
    let bytes = parquet_bytes();
    let (s, info) = ParquetReader.inspect(&bytes, "mem.parquet").unwrap();
    assert_eq!(s.format, "parquet");
    assert_eq!(s.row_count, 3);
    assert_eq!(s.column_count, 2);
    assert_eq!(s.schema[0].name, "id");
    assert_eq!(s.schema[0].data_type, DataType::Integer);
    assert!(!s.schema[0].nullable);
    assert_eq!(s.schema[1].data_type, DataType::String);
    assert!(s.schema[1].nullable);
    assert_eq!(info.row_groups.len(), 1);
    assert_eq!(info.row_groups[0].index, 0);
    assert_eq!(info.row_groups[0].row_count, 3);
    assert_eq!(info.compression_codecs.len(), 1);
}

#[test]
fn parquet_inspect_rejects_bytes_that_are_not_parquet() {
    let e = ParquetReader.inspect(b"not a parquet file", "x.parquet").unwrap_err();
    assert_eq!(e.exit_code(), ExitCode::Internal);
    assert!(e.message().starts_with("failed to read Parquet metadata for x.parquet: "));
}
