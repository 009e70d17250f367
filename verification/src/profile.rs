//! Column profiling decisions: which columns are profiled, the aggregate
//! queries that profile a column, and how a column is classified (null
//! count, identifier heuristic, semantic type, whether its values must be
//! masked). The queries themselves run on the query engine around this
//! library; the floating-point statistics stay there.
use crate::error::DatagovError;
use crate::recognizer::strings_view;
use crate::report::DataType;
use crate::scanner::{find_matches, regex_find_all};
use crate::sensitivity::{heuristically_sensitive_match, sensitive_match};
use crate::text::{concat2, concat3, concat4, concat5, decimal, decimal_string, str_eq};
use vstd::prelude::*;

verus! {

/// How many top values are reported per column.
pub const TOP_VALUES_LIMIT: usize = 10;

/// The case-insensitive column-name pattern of likely identifiers.
pub const IDENTIFIER_NAME_PATTERN: &'static str = r"(?i)^(id|.*_id|.*id)$";

/// The names joined with `", "`.
pub open spec fn join_names(names: Seq<Seq<char>>) -> Seq<char>
    decreases names.len(),
{
    if names.len() == 0 {
        Seq::empty()
    } else if names.len() == 1 {
        names[0]
    } else {
        join_names(names.drop_last()) + ", "@ + names.last()
    }
}

/// `names` joined with `", "`.
pub fn join_with_commas(names: &Vec<String>) -> (s: String)
    ensures
        s@ == join_names(strings_view(names@)),
{
    let ghost ns = strings_view(names@);
    let mut s = String::new();
    let mut i: usize = 0;
    proof {
        reveal_strlit("");
        assert(join_names(ns.take(0)) =~= ""@);
    }
    while i < names.len()
        invariant
            i <= names@.len(),
            ns == strings_view(names@),
            s@ == join_names(ns.take(i as int)),
        decreases names.len() - i,
    {
        if i > 0 {
            s.append(", ");
        }
        s.append(names[i].as_str());
        proof {
            assert(ns.take(i + 1).drop_last() =~= ns.take(i as int));
            assert(ns.take(i + 1).last() == names@[i as int]@);
            if i == 0 {
                assert(s@ =~= join_names(ns.take(1)));
            }
        }
        i = i + 1;
    }
    assert(ns.take(i as int) =~= ns);
    s
}

/// `name` is one of `all`.
pub open spec fn listed(all: Seq<Seq<char>>, name: Seq<char>) -> bool {
    exists|i: int| 0 <= i < all.len() && #[trigger] all[i] == name
}

/// The first requested name that is not one of `all`.
pub open spec fn first_unknown(requested: Seq<Seq<char>>, all: Seq<Seq<char>>) -> Option<Seq<char>>
    decreases requested.len(),
{
    if requested.len() == 0 {
        None
    } else if !listed(all, requested[0]) {
        Some(requested[0])
    } else {
        first_unknown(requested.skip(1), all)
    }
}

fn is_listed(all: &Vec<String>, name: &str) -> (r: bool)
    ensures
        r == listed(strings_view(all@), name@),
{
    let ghost a = strings_view(all@);
    let mut i: usize = 0;
    while i < all.len()
        invariant
            i <= all@.len(),
            a == strings_view(all@),
            forall|j: int| 0 <= j < i ==> a[j] != name@,
        decreases all.len() - i,
    {
        if str_eq(all[i].as_str(), name) {
            assert(a[i as int] == name@);
            return true;
        }
        i = i + 1;
    }
    false
}

/// Restrict the profiled (or scanned) names to `requested`, when given,
/// checking each against `all`: the first unknown one is an
/// invalid-arguments error naming it as a `noun` ("column" or "field") and
/// listing the known names.
fn select_named(requested: Option<&Vec<String>>, all: &Vec<String>, noun: &str) -> (r: Result<
    Vec<String>,
    DatagovError,
>)
    ensures
        match requested {
            None => r is Ok && strings_view(r->Ok_0@) == strings_view(all@),
            Some(req) => match first_unknown(strings_view(req@), strings_view(all@)) {
                None => r is Ok && strings_view(r->Ok_0@) == strings_view(req@),
                Some(name) => r is Err && r->Err_0 is InvalidArgs && r->Err_0.spec_message()
                    == "unknown "@ + noun@ + " '"@ + name + "'"@ && r->Err_0.spec_remediation()
                    == "choose from: "@ + join_names(strings_view(all@)),
            },
        },
{
    match requested {
        None => Ok(copy_strings(all)),
        Some(req) => {
            let ghost rs = strings_view(req@);
            let ghost a = strings_view(all@);
            let mut i: usize = 0;
            assert(rs.skip(0) =~= rs);
            while i < req.len()
                invariant
                    requested == Some(req),
                    i <= req@.len(),
                    rs == strings_view(req@),
                    a == strings_view(all@),
                    first_unknown(rs, a) == first_unknown(rs.skip(i as int), a),
                decreases req.len() - i,
            {
                assert(rs.skip(i as int)[0] == req@[i as int]@);
                assert(rs.skip(i as int).skip(1) =~= rs.skip(i + 1));
                if !is_listed(all, req[i].as_str()) {
                    let m = concat5("unknown ", noun, " '", req[i].as_str(), "'");
                    let joined = join_with_commas(all);
                    let rem = concat2("choose from: ", joined.as_str());
                    return Err(DatagovError::invalid_args(m.as_str(), rem.as_str()));
                }
                i = i + 1;
            }
            assert(rs.skip(i as int).len() == 0);
            Ok(copy_strings(req))
        },
    }
}

/// Owned copies of the strings of `v`.
pub fn copy_strings(v: &Vec<String>) -> (r: Vec<String>)
    ensures
        strings_view(r@) == strings_view(v@),
{
    let mut r: Vec<String> = Vec::new();
    let mut i: usize = 0;
    while i < v.len()
        invariant
            i <= v@.len(),
            strings_view(r@) == strings_view(v@).take(i as int),
        decreases v.len() - i,
    {
        let t = String::from_str(v[i].as_str());
        let ghost prev = r@;
        r.push(t);
        assert(strings_view(r@) =~= strings_view(prev).push(t@));
        assert(strings_view(r@) =~= strings_view(v@).take(i + 1));
        i = i + 1;
    }
    assert(strings_view(v@).take(i as int) =~= strings_view(v@));
    r
}

/// The columns to profile: all of them, or the requested ones when every
/// requested name is a column (the first unknown one is an error).
pub fn select_columns(requested: Option<&Vec<String>>, all: &Vec<String>) -> (r: Result<
    Vec<String>,
    DatagovError,
>)
    ensures
        match requested {
            None => r is Ok && strings_view(r->Ok_0@) == strings_view(all@),
            Some(req) => match first_unknown(strings_view(req@), strings_view(all@)) {
                None => r is Ok && strings_view(r->Ok_0@) == strings_view(req@),
                Some(name) => r is Err && r->Err_0 is InvalidArgs && r->Err_0.spec_message()
                    == "unknown column '"@ + name + "'"@ && r->Err_0.spec_remediation() == "choose from: "@
                    + join_names(strings_view(all@)),
            },
        },
{
    let r = select_named(requested, all, "column");
    proof {
        reveal_strlit("unknown ");
        reveal_strlit("column");
        reveal_strlit(" '");
        reveal_strlit("unknown column '");
    }
    r
}

/// The fields to scan: all columns, or the requested ones when every
/// requested name is a column (the first unknown one is an error).
pub fn select_fields(requested: Option<&Vec<String>>, all: &Vec<String>) -> (r: Result<
    Vec<String>,
    DatagovError,
>)
    ensures
        match requested {
            None => r is Ok && strings_view(r->Ok_0@) == strings_view(all@),
            Some(req) => match first_unknown(strings_view(req@), strings_view(all@)) {
                None => r is Ok && strings_view(r->Ok_0@) == strings_view(req@),
                Some(name) => r is Err && r->Err_0 is InvalidArgs && r->Err_0.spec_message()
                    == "unknown field '"@ + name + "'"@ && r->Err_0.spec_remediation() == "choose from: "@
                    + join_names(strings_view(all@)),
            },
        },
{
    let r = select_named(requested, all, "field");
    proof {
        reveal_strlit("unknown ");
        reveal_strlit("field");
        reveal_strlit(" '");
        reveal_strlit("unknown field '");
    }
    r
}

} // verus!

verus! {

/// The identifier pattern matches the column name (by `regex`'s
/// `find_iter`: at least one match).
pub open spec fn identifier_name(name: Seq<char>) -> bool {
    match regex_find_all(IDENTIFIER_NAME_PATTERN@, name) {
        Some(ms) => ms.len() > 0,
        None => false,
    }
}

/// Whether a column name looks like an identifier: `id`, or ending in `id`
/// (any case).
pub fn is_identifier_name(name: &str) -> (r: bool)
    ensures
        r == identifier_name(name@),
{
    match find_matches(IDENTIFIER_NAME_PATTERN, name) {
        Some(ms) => ms.len() > 0,
        None => false,
    }
}

/// A column may be an identifier: every row holds a distinct value (and
/// there is at least one row), or its name looks like one.
pub open spec fn possible_identifier_spec(name: Seq<char>, distinct_count: nat, row_count: nat) -> bool {
    (distinct_count == row_count && row_count > 0) || identifier_name(name)
}

/// The semantic type of a column: the sensitive fragment its name
/// matches, else `identifier` for a likely identifier, else a coarse
/// bucket of its data type.
pub open spec fn semantic_type_spec(name: Seq<char>, data_type: DataType, possible_identifier: bool) -> Seq<
    char,
> {
    match sensitive_match(name) {
        Some(f) => f,
        None => if possible_identifier {
            "identifier"@
        } else {
            match data_type {
                DataType::Integer | DataType::Float => "numeric"@,
                DataType::Boolean => "boolean"@,
                _ => "text"@,
            }
        },
    }
}

/// How a profiled column is classified.
#[derive(Debug)]
pub struct ColumnClassification {
    /// Rows without a value.
    pub null_count: u64,
    pub possible_identifier: bool,
    pub semantic_type: String,
    /// Whether its min, max and top values are shown masked only.
    pub masked: bool,
}

/// Classify a profiled column from its aggregate counts.
pub fn classify_column(
    name: &str,
    data_type: DataType,
    row_count: u64,
    non_null: u64,
    distinct_count: u64,
) -> (c: ColumnClassification)
    ensures
        c.null_count == (if non_null <= row_count {
            row_count - non_null
        } else {
            0
        }),
        c.possible_identifier == possible_identifier_spec(name@, distinct_count as nat, row_count as nat),
        c.semantic_type@ == semantic_type_spec(name@, data_type, c.possible_identifier),
        c.masked == sensitive_match(name@) is Some,
{
    let null_count = if non_null <= row_count {
        row_count - non_null
    } else {
        0
    };
    let possible_identifier = (distinct_count == row_count && row_count > 0) || is_identifier_name(
        name,
    );
    let fragment = heuristically_sensitive_match(name);
    let semantic_type = match fragment {
        Some(f) => String::from_str(f),
        None => if possible_identifier {
            String::from_str("identifier")
        } else {
            match data_type {
                DataType::Integer | DataType::Float => String::from_str("numeric"),
                DataType::Boolean => String::from_str("boolean"),
                _ => String::from_str("text"),
            }
        },
    };
    ColumnClassification {
        null_count,
        possible_identifier,
        semantic_type,
        masked: fragment.is_some(),
    }
}

/// A sensitive column is always masked, and its semantic type is the
/// sensitive fragment its name matched, whatever its values.
pub proof fn lemma_sensitive_column_masked(name: Seq<char>, data_type: DataType, possible_identifier: bool)
    requires
        sensitive_match(name) is Some,
    ensures
        semantic_type_spec(name, data_type, possible_identifier) == sensitive_match(name).unwrap(),
{
}

/// `name` in double quotes, as a SQL identifier.
pub open spec fn quoted(name: Seq<char>) -> Seq<char> {
    "\""@ + name + "\""@
}

fn quote(name: &str) -> (s: String)
    ensures
        s@ == quoted(name@),
{
    concat3("\"", name, "\"")
}

/// The row count query.
pub open spec fn count_rows_sql_spec(table: Seq<char>) -> Seq<char> {
    "SELECT COUNT(*) AS total FROM "@ + quoted(table)
}

/// The query that counts the rows of `table` (as `total`).
pub fn count_rows_sql(table: &str) -> (s: String)
    ensures
        s@ == count_rows_sql_spec(table@),
{
    let q = quote(table);
    concat2("SELECT COUNT(*) AS total FROM ", q.as_str())
}

/// The query that takes the first `n` rows of `table`.
pub fn sample_sql(table: &str, n: u64) -> (s: String)
    ensures
        s@ == "SELECT * FROM "@ + quoted(table@) + " LIMIT "@ + decimal(n as nat),
{
    let q = quote(table);
    let digits = decimal_string(n);
    concat4("SELECT * FROM ", q.as_str(), " LIMIT ", digits.as_str())
}

/// The name under which the sampled rows of `table` are registered.
pub fn sampled_table_name(table: &str) -> (s: String)
    ensures
        s@ == table@ + "__sampled"@,
{
    concat2(table, "__sampled")
}

/// The most frequent values of a column, most frequent first, ties by value.
pub open spec fn top_values_sql_spec(table: Seq<char>, name: Seq<char>) -> Seq<char> {
    "SELECT "@ + quoted(name) + " AS value, COUNT(*) AS cnt FROM "@ + quoted(table) + " WHERE "@
        + quoted(name) + " IS NOT NULL GROUP BY "@ + quoted(name)
        + " ORDER BY cnt DESC, value ASC LIMIT 10"@
}

/// The query for a column's top values (as `value` and `cnt`).
pub fn top_values_sql(table: &str, name: &str) -> (s: String)
    ensures
        s@ == top_values_sql_spec(table@, name@),
{
    let qn = quote(name);
    let qt = quote(table);
    let a = concat4("SELECT ", qn.as_str(), " AS value, COUNT(*) AS cnt FROM ", qt.as_str());
    let b = concat4(a.as_str(), " WHERE ", qn.as_str(), " IS NOT NULL GROUP BY ");
    concat3(b.as_str(), qn.as_str(), " ORDER BY cnt DESC, value ASC LIMIT 10")
}

/// Every non-null value of a column, cast to text (as `v`).
pub fn column_values_sql(table: &str, name: &str) -> (s: String)
    ensures
        s@ == "SELECT CAST("@ + quoted(name@) + " AS VARCHAR) AS v FROM "@ + quoted(table@)
            + " WHERE "@ + quoted(name@) + " IS NOT NULL"@,
{
    let qn = quote(name);
    let qt = quote(table);
    let a = concat4("SELECT CAST(", qn.as_str(), " AS VARCHAR) AS v FROM ", qt.as_str());
    concat4(a.as_str(), " WHERE ", qn.as_str(), " IS NOT NULL")
}

/// The select list of a column's aggregate query: counts, distinct count,
/// min and max for every column; mean, standard deviation and quantiles
/// for numeric columns; length statistics for string columns.
pub open spec fn profile_parts(name: Seq<char>, data_type: DataType) -> Seq<Seq<char>> {
    let q = quoted(name);
    let common = seq![
        "COUNT("@ + q + ") AS non_null"@,
        "COUNT(DISTINCT "@ + q + ") AS distinct_count"@,
        "MIN("@ + q + ") AS min_value"@,
        "MAX("@ + q + ") AS max_value"@,
    ];
    let numeric = seq![
        "AVG("@ + q + ") AS mean_value"@,
        "STDDEV("@ + q + ") AS stddev_value"@,
        "APPROX_PERCENTILE_CONT("@ + q + ", 0.25) AS p25"@,
        "APPROX_PERCENTILE_CONT("@ + q + ", 0.5) AS p50"@,
        "APPROX_PERCENTILE_CONT("@ + q + ", 0.75) AS p75"@,
        "APPROX_PERCENTILE_CONT("@ + q + ", 0.9) AS p90"@,
        "APPROX_PERCENTILE_CONT("@ + q + ", 0.99) AS p99"@,
    ];
    let stringy = seq![
        "MIN(LENGTH("@ + q + ")) AS len_min"@,
        "MAX(LENGTH("@ + q + ")) AS len_max"@,
        "AVG(LENGTH("@ + q + ")) AS len_mean"@,
    ];
    match data_type {
        DataType::Integer | DataType::Float => common + numeric,
        DataType::String => common + stringy,
        _ => common,
    }
}

fn push_part(parts: &mut Vec<String>, head: &str, q: &str, tail: &str)
    ensures
        strings_view(final(parts)@) == strings_view(old(parts)@).push(head@ + q@ + tail@),
{
    let ghost prev = parts@;
    let p = concat3(head, q, tail);
    parts.push(p);
    assert(strings_view(parts@) =~= strings_view(prev).push(p@));
}

/// The aggregate query that profiles column `name` of `table`.
pub fn profile_sql(table: &str, name: &str, data_type: DataType) -> (s: String)
    ensures
        s@ == "SELECT "@ + join_names(profile_parts(name@, data_type)) + " FROM "@ + quoted(table@),
{
    let q = quote(name);
    let qs = q.as_str();
    let mut parts: Vec<String> = Vec::new();
    push_part(&mut parts, "COUNT(", qs, ") AS non_null");
    push_part(&mut parts, "COUNT(DISTINCT ", qs, ") AS distinct_count");
    push_part(&mut parts, "MIN(", qs, ") AS min_value");
    push_part(&mut parts, "MAX(", qs, ") AS max_value");
    match data_type {
        DataType::Integer | DataType::Float => {
            push_part(&mut parts, "AVG(", qs, ") AS mean_value");
            push_part(&mut parts, "STDDEV(", qs, ") AS stddev_value");
            push_part(&mut parts, "APPROX_PERCENTILE_CONT(", qs, ", 0.25) AS p25");
            push_part(&mut parts, "APPROX_PERCENTILE_CONT(", qs, ", 0.5) AS p50");
            push_part(&mut parts, "APPROX_PERCENTILE_CONT(", qs, ", 0.75) AS p75");
            push_part(&mut parts, "APPROX_PERCENTILE_CONT(", qs, ", 0.9) AS p90");
            push_part(&mut parts, "APPROX_PERCENTILE_CONT(", qs, ", 0.99) AS p99");
        },
        DataType::String => {
            push_part(&mut parts, "MIN(LENGTH(", qs, ")) AS len_min");
            push_part(&mut parts, "MAX(LENGTH(", qs, ")) AS len_max");
            push_part(&mut parts, "AVG(LENGTH(", qs, ")) AS len_mean");
        },
        _ => {},
    }
    assert(strings_view(parts@) =~= profile_parts(name@, data_type));
    let list = join_with_commas(&parts);
    let qt = quote(table);
    concat4("SELECT ", list.as_str(), " FROM ", qt.as_str())
}

} // verus!

verus! {

/// The Arrow field types a profiled column can have, as far as the type
/// mapping distinguishes them (every other Arrow type is `Other`).
#[derive(Debug, Clone, Copy, PartialEq, Eq, Structural)]
pub enum ArrowType {
    Boolean,
    Int8,
    Int16,
    Int32,
    Int64,
    UInt8,
    UInt16,
    UInt32,
    UInt64,
    Float16,
    Float32,
    Float64,
    Decimal32,
    Decimal64,
    Decimal128,
    Decimal256,
    Utf8,
    LargeUtf8,
    Utf8View,
    List,
    LargeList,
    FixedSizeList,
    ListView,
    LargeListView,
    Struct,
    MapType,
    Null,
    Other,
}

/// The report data type of an Arrow type: integers are Integer, floats
/// and decimals Float, strings String, lists Array, structs and maps
/// Object, null Null, and anything else (dates, binary, ...) String.
pub open spec fn arrow_data_type(t: ArrowType) -> DataType {
    match t {
        ArrowType::Boolean => DataType::Boolean,
        ArrowType::Int8 | ArrowType::Int16 | ArrowType::Int32 | ArrowType::Int64 | ArrowType::UInt8
        | ArrowType::UInt16 | ArrowType::UInt32 | ArrowType::UInt64 => DataType::Integer,
        ArrowType::Float16 | ArrowType::Float32 | ArrowType::Float64 | ArrowType::Decimal32
        | ArrowType::Decimal64 | ArrowType::Decimal128 | ArrowType::Decimal256 => DataType::Float,
        ArrowType::Utf8 | ArrowType::LargeUtf8 | ArrowType::Utf8View => DataType::String,
        ArrowType::List | ArrowType::LargeList | ArrowType::FixedSizeList | ArrowType::ListView
        | ArrowType::LargeListView => DataType::Array,
        ArrowType::Struct | ArrowType::MapType => DataType::Object,
        ArrowType::Null => DataType::Null,
        ArrowType::Other => DataType::String,
    }
}

/// Map an Arrow field type to the report's data type.
pub fn map_arrow_type(t: ArrowType) -> (d: DataType)
    ensures
        d == arrow_data_type(t),
{
    match t {
        ArrowType::Boolean => DataType::Boolean,
        ArrowType::Int8 | ArrowType::Int16 | ArrowType::Int32 | ArrowType::Int64 | ArrowType::UInt8
        | ArrowType::UInt16 | ArrowType::UInt32 | ArrowType::UInt64 => DataType::Integer,
        ArrowType::Float16 | ArrowType::Float32 | ArrowType::Float64 | ArrowType::Decimal32
        | ArrowType::Decimal64 | ArrowType::Decimal128 | ArrowType::Decimal256 => DataType::Float,
        ArrowType::Utf8 | ArrowType::LargeUtf8 | ArrowType::Utf8View => DataType::String,
        ArrowType::List | ArrowType::LargeList | ArrowType::FixedSizeList | ArrowType::ListView
        | ArrowType::LargeListView => DataType::Array,
        ArrowType::Struct | ArrowType::MapType => DataType::Object,
        ArrowType::Null => DataType::Null,
        ArrowType::Other => DataType::String,
    }
}

} // verus!

verus! {

/// Profiling registers the file as a table, so standard input is refused.
pub fn check_profile_target(path: &str) -> (r: Result<(), DatagovError>)
    ensures
        path@ == "-"@ <==> r is Err,
        r matches Err(e) ==> e is InvalidArgs && e.spec_message() == "'profile' requires a real file path"@
            && e.spec_remediation()
            == "DataFusion table registration needs random file access; stdin is not supported for profile"@,
{
    if str_eq(path, "-") {
        Err(
            DatagovError::invalid_args(
                "'profile' requires a real file path",
                "DataFusion table registration needs random file access; stdin is not supported for profile",
            ),
        )
    } else {
        Ok(())
    }
}

} // verus!

verus! {

/// What the profiling statement selects for each kind of column: every
/// column gets its non-null count, distinct count, minimum and maximum; a
/// numeric column also its arithmetic mean (`AVG`), standard deviation
/// (`STDDEV`) and approximate 25th, 50th, 75th, 90th and 99th percentiles;
/// a string column also its minimum, maximum and mean length; any other
/// column nothing more.
pub proof fn lemma_profile_select_list(name: Seq<char>, data_type: DataType)
    ensures
        ({
            let q = quoted(name);
            let common = seq![
                "COUNT("@ + q + ") AS non_null"@,
                "COUNT(DISTINCT "@ + q + ") AS distinct_count"@,
                "MIN("@ + q + ") AS min_value"@,
                "MAX("@ + q + ") AS max_value"@,
            ];
            &&& (data_type == DataType::Integer || data_type == DataType::Float) ==> profile_parts(name, data_type)
                == common + seq![
                "AVG("@ + q + ") AS mean_value"@,
                "STDDEV("@ + q + ") AS stddev_value"@,
                "APPROX_PERCENTILE_CONT("@ + q + ", 0.25) AS p25"@,
                "APPROX_PERCENTILE_CONT("@ + q + ", 0.5) AS p50"@,
                "APPROX_PERCENTILE_CONT("@ + q + ", 0.75) AS p75"@,
                "APPROX_PERCENTILE_CONT("@ + q + ", 0.9) AS p90"@,
                "APPROX_PERCENTILE_CONT("@ + q + ", 0.99) AS p99"@,
            ]
            &&& data_type == DataType::String ==> profile_parts(name, data_type) == common + seq![
                "MIN(LENGTH("@ + q + ")) AS len_min"@,
                "MAX(LENGTH("@ + q + ")) AS len_max"@,
                "AVG(LENGTH("@ + q + ")) AS len_mean"@,
            ]
            &&& !(data_type == DataType::Integer || data_type == DataType::Float || data_type == DataType::String)
                ==> profile_parts(name, data_type) == common
        }),
{
}

/// The column name in a profiling statement is the name in double quotes.
pub proof fn lemma_quoted_name(name: Seq<char>)
    ensures
        quoted(name).len() == name.len() + 2,
        quoted(name)[0] == '"',
        quoted(name)[name.len() as int + 1] == '"',
        quoted(name).subrange(1, name.len() as int + 1) == name,
{
    reveal_strlit("\"");
    assert(quoted(name).subrange(1, name.len() as int + 1) =~= name);
}

} // verus!
