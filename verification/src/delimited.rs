//! The CSV/TSV reader: from the records of a delimited file to its
//! schema, row count, memory estimate and typed sample rows.
//!
//! Each column is narrowed to the narrowest type every non-empty value
//! reads as (Boolean, then Integer, then Float, else String); a column with
//! no non-empty value is Null, and a column is nullable when some row has no
//! value for it (an empty field, or a short row). The memory estimate sums,
//! per value, 1 for an empty one, 8 for an Integer or Float, 1 for a
//! Boolean, and the value's UTF-8 length plus 24 otherwise.
use crate::error::DatagovError;
use crate::literal::{bool_literal, f64_literal, i64_literal, is_f64_literal, parse_bool, parse_i64};
use crate::recognizer::strings_view;
use crate::report::{ColumnSchema, DataType};
use crate::scanner::rows_view;
use crate::text::concat2;
use vstd::prelude::*;
use vstd::utf8::encode_utf8;

verus! {

/// How many rows from the front of a dataset are kept as samples.
pub const DEFAULT_SAMPLE_ROWS: usize = 5;

/// One sample cell, typed by its column's inferred type.
#[derive(Debug, Clone, PartialEq, Eq)]
pub enum Cell {
    Null,
    Bool(bool),
    Integer(i64),
    /// A floating-point value, as written.
    Float(String),
    Text(String),
}

/// What a reader learns of a dataset.
#[derive(Debug)]
pub struct DatasetSummary {
    pub format: String,
    pub row_count: u64,
    pub column_count: u32,
    pub schema: Vec<ColumnSchema>,
    pub approx_memory_bytes: u64,
    /// The first rows, one cell per column.
    pub sample_rows: Vec<Vec<Cell>>,
}

/// The value of column `i` in a record: `None` when the field is empty or
/// the record is short.
pub open spec fn cell_value(rec: Seq<Seq<char>>, i: int) -> Option<Seq<char>> {
    if 0 <= i < rec.len() && rec[i].len() > 0 {
        Some(rec[i])
    } else {
        None
    }
}

/// The values of column `i`, row by row.
pub open spec fn column_values(records: Seq<Seq<Seq<char>>>, i: int) -> Seq<Option<Seq<char>>> {
    Seq::new(records.len(), |r: int| cell_value(records[r], i))
}

/// Some value is present.
pub open spec fn any_present(values: Seq<Option<Seq<char>>>) -> bool {
    exists|r: int| 0 <= r < values.len() && #[trigger] values[r] is Some
}

/// Every present value satisfies `p`.
pub open spec fn all_present(values: Seq<Option<Seq<char>>>, p: spec_fn(Seq<char>) -> bool) -> bool {
    forall|r: int| 0 <= r < values.len() && #[trigger] values[r] is Some ==> p(values[r].unwrap())
}

/// Reads as a boolean.
pub open spec fn reads_bool(s: Seq<char>) -> bool {
    bool_literal(s) is Some
}

/// Reads as a 64-bit integer.
pub open spec fn reads_int(s: Seq<char>) -> bool {
    i64_literal(s) is Some
}

/// Reads as a floating-point number.
pub open spec fn reads_float(s: Seq<char>) -> bool {
    f64_literal(s)
}

/// The narrowest type every present value reads as.
pub open spec fn narrow_spec(values: Seq<Option<Seq<char>>>) -> DataType {
    if !any_present(values) {
        DataType::Null
    } else if all_present(values, |s: Seq<char>| reads_bool(s)) {
        DataType::Boolean
    } else if all_present(values, |s: Seq<char>| reads_int(s)) {
        DataType::Integer
    } else if all_present(values, |s: Seq<char>| reads_float(s)) {
        DataType::Float
    } else {
        DataType::String
    }
}

/// The memory estimate of one value of a column of type `dt`.
pub open spec fn value_memory(v: Option<Seq<char>>, dt: DataType) -> int {
    match v {
        None => 1,
        Some(s) => match dt {
            DataType::Integer | DataType::Float => 8,
            DataType::Boolean => 1,
            _ => encode_utf8(s).len() as int + 24,
        },
    }
}

/// The memory estimate of a column.
pub open spec fn column_memory(values: Seq<Option<Seq<char>>>, dt: DataType) -> int
    decreases values.len(),
{
    if values.len() == 0 {
        0
    } else {
        column_memory(values.drop_last(), dt) + value_memory(values.last(), dt)
    }
}

/// The views of optional strings.
pub open spec fn opt_views(v: Seq<Option<String>>) -> Seq<Option<Seq<char>>> {
    v.map_values(|o: Option<String>| match o {
        Some(s) => Some(s@),
        None => None,
    })
}

/// The narrowest type that fits every present value: Boolean, Integer,
/// Float, else String; Null when no value is present.
pub fn narrow_type(values: &Vec<Option<String>>) -> (t: DataType)
    ensures
        t == narrow_spec(opt_views(values@)),
{
    let ghost vs = opt_views(values@);
    let mut any_value = false;
    let mut is_bool = true;
    let mut is_int = true;
    let mut is_float = true;
    let mut r: usize = 0;
    while r < values.len()
        invariant
            r <= values@.len(),
            vs == opt_views(values@),
            vs.len() == values@.len(),
            any_value == exists|k: int| 0 <= k < r && #[trigger] vs[k] is Some,
            is_bool == forall|k: int| 0 <= k < r && #[trigger] vs[k] is Some ==> reads_bool(vs[k].unwrap()),
            is_int == forall|k: int| 0 <= k < r && #[trigger] vs[k] is Some ==> reads_int(vs[k].unwrap()),
            is_float == forall|k: int| 0 <= k < r && #[trigger] vs[k] is Some ==> reads_float(vs[k].unwrap()),
        decreases values.len() - r,
    {
        match &values[r] {
            Some(v) => {
                assert(vs[r as int] == Some(v@));
                any_value = true;
                let b = parse_bool(v.as_str()).is_some();
                let i = parse_i64(v.as_str()).is_some();
                let f = is_f64_literal(v.as_str());
                is_bool = is_bool && b;
                is_int = is_int && i;
                is_float = is_float && f;
            },
            None => {
                assert(vs[r as int] is None);
            },
        }
        r = r + 1;
    }
    if !any_value {
        DataType::Null
    } else if is_bool {
        DataType::Boolean
    } else if is_int {
        DataType::Integer
    } else if is_float {
        DataType::Float
    } else {
        DataType::String
    }
}

/// The UTF-8 length of `s`.
fn byte_len(s: &str) -> (n: usize)
    ensures
        n == encode_utf8(s@).len(),
{
    s.as_bytes().len()
}

/// The memory estimate of a column of type `data_type`, as a sum that
/// saturates at `u64::MAX`.
pub fn column_memory_bytes(values: &Vec<Option<String>>, data_type: DataType) -> (m: u64)
    ensures
        m == (if column_memory(opt_views(values@), data_type) <= u64::MAX {
            column_memory(opt_views(values@), data_type)
        } else {
            u64::MAX as int
        }),
{
    let ghost vs = opt_views(values@);
    let cap: u128 = 0x1_0000_0000_0000_0000;
    let mut total: u128 = 0;
    let mut r: usize = 0;
    while r < values.len()
        invariant
            r <= values@.len(),
            vs == opt_views(values@),
            cap == 0x1_0000_0000_0000_0000,
            total == (if column_memory(vs.take(r as int), data_type) < cap {
                column_memory(vs.take(r as int), data_type)
            } else {
                cap as int
            }),
        decreases values.len() - r,
    {
        let add: u128 = match &values[r] {
            None => 1,
            Some(s) => match data_type {
                DataType::Integer | DataType::Float => 8,
                DataType::Boolean => 1,
                _ => (byte_len(s.as_str()) as u128) + 24,
            },
        };
        proof {
            assert(vs.take(r + 1).drop_last() == vs.take(r as int));
            assert(vs.take(r + 1).last() == vs[r as int]);
            assert(add == value_memory(vs[r as int], data_type));
        }
        if total + add < cap {
            total = total + add;
        } else {
            total = cap;
        }
        r = r + 1;
    }
    assert(vs.take(r as int) == vs);
    if total <= u64::MAX as u128 {
        total as u64
    } else {
        u64::MAX
    }
}

/// `c` is the sample cell of value `v` in a column of type `dt`: null for
/// no value; the boolean or integer it reads as in a Boolean or Integer
/// column; the text as written in a Float column (when it reads as a
/// float); otherwise the text.
pub open spec fn renders_as(c: Cell, v: Option<Seq<char>>, dt: DataType) -> bool {
    match v {
        None => c == Cell::Null,
        Some(s) => match dt {
            DataType::Boolean => match bool_literal(s) {
                Some(b) => c == Cell::Bool(b),
                None => c matches Cell::Text(t) && t@ == s,
            },
            DataType::Integer => match i64_literal(s) {
                Some(n) => c matches Cell::Integer(k) && k == n,
                None => c matches Cell::Text(t) && t@ == s,
            },
            DataType::Float => if f64_literal(s) {
                c matches Cell::Float(t) && t@ == s
            } else {
                c matches Cell::Text(t) && t@ == s
            },
            _ => c matches Cell::Text(t) && t@ == s,
        },
    }
}

/// The sample cell of `value` in a column of type `data_type`.
pub fn render_value(value: Option<&str>, data_type: DataType) -> (c: Cell)
    ensures
        renders_as(
            c,
            match value {
                Some(s) => Some(s@),
                None => None,
            },
            data_type,
        ),
{
    let raw = match value {
        None => {
            return Cell::Null;
        },
        Some(raw) => raw,
    };
    match data_type {
        DataType::Boolean => match parse_bool(raw) {
            Some(b) => Cell::Bool(b),
            None => Cell::Text(String::from_str(raw)),
        },
        DataType::Integer => match parse_i64(raw) {
            Some(n) => Cell::Integer(n),
            None => Cell::Text(String::from_str(raw)),
        },
        DataType::Float => if is_f64_literal(raw) {
            Cell::Float(String::from_str(raw))
        } else {
            Cell::Text(String::from_str(raw))
        },
        _ => Cell::Text(String::from_str(raw)),
    }
}

} // verus!

verus! {

/// Reads CSV (delimiter `,`) or TSV (delimiter tab).
#[derive(Debug)]
pub struct DelimitedReader {
    pub delimiter: u8,
}

/// The memory estimate of the first `n` columns.
pub open spec fn total_memory(records: Seq<Seq<Seq<char>>>, n: int) -> int
    decreases n,
{
    if n <= 0 {
        0
    } else {
        total_memory(records, n - 1) + column_memory(
            column_values(records, n - 1),
            narrow_spec(column_values(records, n - 1)),
        )
    }
}

/// Some row has no value in the column.
pub open spec fn any_missing(values: Seq<Option<Seq<char>>>) -> bool {
    exists|r: int| 0 <= r < values.len() && #[trigger] values[r] is None
}

/// `x` limited to `u64::MAX`.
pub open spec fn saturate(x: int) -> int {
    if x <= u64::MAX {
        x
    } else {
        u64::MAX as int
    }
}

/// What the summary of a delimited file states.
pub open spec fn summarizes(
    s: DatasetSummary,
    format: Seq<char>,
    headers: Seq<Seq<char>>,
    records: Seq<Seq<Seq<char>>>,
) -> bool {
    &&& s.format@ == format
    &&& s.row_count == records.len()
    &&& s.column_count == headers.len() as u32
    &&& s.schema@.len() == headers.len()
    &&& forall|i: int|
        0 <= i < headers.len() ==> {
            &&& (#[trigger] s.schema@[i]).name@ == headers[i]
            &&& s.schema@[i].data_type == narrow_spec(column_values(records, i))
            &&& s.schema@[i].nullable == any_missing(column_values(records, i))
        }
    &&& s.approx_memory_bytes == saturate(total_memory(records, headers.len() as int))
    &&& s.sample_rows@.len() == (if records.len() < DEFAULT_SAMPLE_ROWS {
        records.len() as int
    } else {
        DEFAULT_SAMPLE_ROWS as int
    })
    &&& forall|r: int|
        0 <= r < s.sample_rows@.len() ==> (#[trigger] s.sample_rows@[r])@.len() == headers.len()
    &&& forall|r: int, i: int|
        0 <= r < s.sample_rows@.len() && 0 <= i < headers.len() ==> renders_as(
            #[trigger] s.sample_rows@[r]@[i],
            cell_value(records[r], i),
            s.schema@[i].data_type,
        )
}

/// The values of column `i`, row by row.
fn column_of(records: &Vec<Vec<String>>, i: usize) -> (col: Vec<Option<String>>)
    ensures
        opt_views(col@) == column_values(rows_view(records@), i as int),
{
    let ghost rv = rows_view(records@);
    let mut col: Vec<Option<String>> = Vec::new();
    let mut r: usize = 0;
    while r < records.len()
        invariant
            r <= records@.len(),
            rv == rows_view(records@),
            opt_views(col@) == column_values(rv, i as int).take(r as int),
        decreases records.len() - r,
    {
        let rec = &records[r];
        assert(rv[r as int] == strings_view(rec@));
        let v: Option<String> = if i < rec.len() && !rec[i].as_str().is_empty() {
            Some(String::from_str(rec[i].as_str()))
        } else {
            None
        };
        proof {
            if i < rec@.len() {
                assert(rv[r as int][i as int] == rec@[i as int]@);
            }
        }
        let ghost prev = col@;
        let ghost vv = opt_views(seq![v])[0];
        assert(vv == cell_value(rv[r as int], i as int));
        col.push(v);
        assert(opt_views(col@) =~= opt_views(prev).push(vv));
        assert(opt_views(col@) =~= column_values(rv, i as int).take(r + 1));
        r = r + 1;
    }
    assert(column_values(rv, i as int).take(r as int) =~= column_values(rv, i as int));
    col
}

fn has_missing(col: &Vec<Option<String>>) -> (b: bool)
    ensures
        b == any_missing(opt_views(col@)),
{
    let mut r: usize = 0;
    while r < col.len()
        invariant
            r <= col@.len(),
            forall|k: int| 0 <= k < r ==> #[trigger] opt_views(col@)[k] is Some,
        decreases col.len() - r,
    {
        if col[r].is_none() {
            assert(opt_views(col@)[r as int] is None);
            return true;
        }
        r = r + 1;
    }
    false
}

impl DelimitedReader {
    /// The format label: `tsv` for a tab delimiter, else `csv`.
    pub open spec fn format_spec(&self) -> Seq<char> {
        if self.delimiter == 9 {
            "tsv"@
        } else {
            "csv"@
        }
    }

    /// The format label of this reader.
    pub fn format_name(&self) -> (s: &'static str)
        ensures
            s@ == self.format_spec(),
    {
        if self.delimiter == 9 {
            "tsv"
        } else {
            "csv"
        }
    }

    /// Summarize a delimited file from its header row and records.
    pub fn summarize(&self, headers: &Vec<String>, records: &Vec<Vec<String>>) -> (s: DatasetSummary)
        ensures
            summarizes(s, self.format_spec(), strings_view(headers@), rows_view(records@)),
    {
        let ghost hv = strings_view(headers@);
        let ghost rv = rows_view(records@);
        let mut schema: Vec<ColumnSchema> = Vec::new();
        let mut memory: u64 = 0;
        let mut i: usize = 0;
        while i < headers.len()
            invariant
                i <= headers@.len(),
                hv == strings_view(headers@),
                rv == rows_view(records@),
                schema@.len() == i,
                forall|k: int|
                    0 <= k < i ==> {
                        &&& (#[trigger] schema@[k]).name@ == hv[k]
                        &&& schema@[k].data_type == narrow_spec(column_values(rv, k))
                        &&& schema@[k].nullable == any_missing(column_values(rv, k))
                    },
                memory == saturate(total_memory(rv, i as int)),
            decreases headers.len() - i,
        {
            let col = column_of(records, i);
            let data_type = narrow_type(&col);
            let nullable = has_missing(&col);
            let m = column_memory_bytes(&col, data_type);
            memory = memory.saturating_add(m);
            schema.push(ColumnSchema { name: String::from_str(headers[i].as_str()), data_type, nullable });
            i = i + 1;
        }
        let mut samples: Vec<Vec<Cell>> = Vec::new();
        let mut r: usize = 0;
        while r < records.len() && r < DEFAULT_SAMPLE_ROWS
            invariant
                r <= records@.len(),
                r <= DEFAULT_SAMPLE_ROWS,
                hv == strings_view(headers@),
                rv == rows_view(records@),
                schema@.len() == hv.len(),
                samples@.len() == r,
                forall|k: int| 0 <= k < r ==> (#[trigger] samples@[k])@.len() == hv.len(),
                forall|k: int, j: int|
                    0 <= k < r && 0 <= j < hv.len() ==> renders_as(
                        #[trigger] samples@[k]@[j],
                        cell_value(rv[k], j),
                        schema@[j].data_type,
                    ),
            decreases records.len() - r,
        {
            let rec = &records[r];
            assert(rv[r as int] == strings_view(rec@));
            let mut row: Vec<Cell> = Vec::new();
            let mut j: usize = 0;
            while j < headers.len()
                invariant
                    j <= hv.len(),
                    r < rv.len(),
                    hv.len() == headers@.len(),
                    rv[r as int] == strings_view(rec@),
                    schema@.len() == hv.len(),
                    row@.len() == j,
                    forall|x: int|
                        0 <= x < j ==> renders_as(
                            #[trigger] row@[x],
                            cell_value(rv[r as int], x),
                            schema@[x].data_type,
                        ),
                decreases headers.len() - j,
            {
                let value: Option<&str> = if j < rec.len() && !rec[j].as_str().is_empty() {
                    Some(rec[j].as_str())
                } else {
                    None
                };
                proof {
                    if j < rec@.len() {
                        assert(rv[r as int][j as int] == rec@[j as int]@);
                    }
                }
                row.push(render_value(value, schema[j].data_type));
                j = j + 1;
            }
            samples.push(row);
            r = r + 1;
        }
        DatasetSummary {
            format: String::from_str(self.format_name()),
            row_count: records.len() as u64,
            column_count: #[verifier::truncate] (headers.len() as u32),
            schema,
            approx_memory_bytes: memory,
            sample_rows: samples,
        }
    }
}

} // verus!

verus! {

/// What the `csv` crate reads from `bytes` with the given delimiter, a
/// header row and flexible record lengths: the header fields and each
/// record's fields, or the error it stopped at (`true` when reading the
/// header row failed) with its display text.
pub uninterp spec fn csv_parse(bytes: Seq<u8>, delimiter: u8) -> Result<
    (Seq<Seq<char>>, Seq<Seq<Seq<char>>>),
    (bool, Seq<char>),
>;

/// Reads the header row and every record of a delimited file with
/// `csv::ReaderBuilder` (header row, flexible lengths). The outcome is the
/// `csv` crate's, named `csv_parse`; nothing more is claimed about it.
#[verifier::external_body]
fn read_delimited(bytes: &[u8], delimiter: u8) -> (r: Result<(Vec<String>, Vec<Vec<String>>), (bool, String)>)
    ensures
        match r {
            Ok((h, recs)) => csv_parse(bytes@, delimiter) == Ok::<_, (bool, Seq<char>)>((strings_view(h@), rows_view(recs@))),
            Err((at_header, e)) => csv_parse(bytes@, delimiter) == Err::<(Seq<Seq<char>>, Seq<Seq<Seq<char>>>), _>((at_header, e@)),
        },
{
    let mut reader = csv::ReaderBuilder::new().delimiter(delimiter).has_headers(true).flexible(true).from_reader(bytes);
    let headers: Vec<String> = match reader.headers() {
        Ok(h) => h.iter().map(|f| f.to_string()).collect(),
        Err(e) => return Err((true, e.to_string())),
    };
    let mut records: Vec<Vec<String>> = Vec::new();
    for result in reader.records() {
        match result {
            Ok(rec) => records.push(rec.iter().map(|f| f.to_string()).collect()),
            Err(e) => return Err((false, e.to_string())),
        }
    }
    Ok((headers, records))
}

impl DelimitedReader {
    /// Read a delimited file's contents and summarize it. A file the `csv`
    /// crate cannot read is an internal error naming where it stopped.
    pub fn inspect(&self, bytes: &[u8]) -> (r: Result<DatasetSummary, DatagovError>)
        ensures
            match csv_parse(bytes@, self.delimiter) {
                Ok((h, recs)) => r is Ok && summarizes(r->Ok_0, self.format_spec(), h, recs),
                Err((true, e)) => r is Err && r->Err_0 is Internal && r->Err_0.spec_message()
                    == "failed to read the header row: "@ + e,
                Err((false, e)) => r is Err && r->Err_0 is Internal && r->Err_0.spec_message()
                    == "failed to read a record: "@ + e,
            },
    {
        match read_delimited(bytes, self.delimiter) {
            Ok((headers, records)) => Ok(self.summarize(&headers, &records)),
            Err((true, e)) => {
                let m = concat2("failed to read the header row: ", e.as_str());
                Err(DatagovError::internal(m.as_str()))
            },
            Err((false, e)) => {
                let m = concat2("failed to read a record: ", e.as_str());
                Err(DatagovError::internal(m.as_str()))
            },
        }
    }
}

} // verus!

verus! {

/// The reader for each format.
#[derive(Debug)]
pub enum Reader {
    Delimited(DelimitedReader),
    Json(crate::json_reader::JsonReader),
    Parquet(crate::parquet_reader::ParquetReader),
}

/// The reader for a resolved format: CSV and TSV by delimiter, JSON and
/// JSONL by line mode, Parquet from metadata.
pub fn reader_for(format: crate::format::Format) -> (r: Reader)
    ensures
        match format {
            crate::format::Format::Csv => r matches Reader::Delimited(d) && d.delimiter == 44,
            crate::format::Format::Tsv => r matches Reader::Delimited(d) && d.delimiter == 9,
            crate::format::Format::Json => r matches Reader::Json(j) && !j.jsonl,
            crate::format::Format::Jsonl => r matches Reader::Json(j) && j.jsonl,
            crate::format::Format::Parquet => r is Parquet,
        },
{
    match format {
        crate::format::Format::Csv => Reader::Delimited(DelimitedReader { delimiter: 44 }),
        crate::format::Format::Tsv => Reader::Delimited(DelimitedReader { delimiter: 9 }),
        crate::format::Format::Json => Reader::Json(crate::json_reader::JsonReader { jsonl: false }),
        crate::format::Format::Jsonl => Reader::Json(crate::json_reader::JsonReader { jsonl: true }),
        crate::format::Format::Parquet => Reader::Parquet(crate::parquet_reader::ParquetReader),
    }
}

} // verus!
