//! SQL dialect resolution, formatting, transpilation and transpile
//! warnings, with parsing and generation done by `sqlglot_rust`.
//!
//! Eleven dialects are supported, each with a canonical name and aliases
//! (matched after trimming and ASCII-lowercasing). A transpile warns when
//! a QUALIFY clause, or a PIVOT/UNPIVOT in the FROM clause, is carried into
//! a dialect that does not support it natively.
use crate::error::DatagovError;
use crate::parse_result::{parse_shape, sql_statement_shape, SourceShape, StatementKind, StatementShape};
use crate::text::{chars_of, concat2, concat3, concat5, str_eq, to_ascii_lowercase, lower};
use vstd::prelude::*;

verus! {

/// The dialect used when none is named.
pub const DEFAULT_DIALECT: &'static str = "ansi";

/// The supported SQL dialects.
#[derive(Debug, Clone, Copy, PartialEq, Eq, Structural)]
pub enum SqlDialect {
    Ansi,
    Postgres,
    DuckDb,
    Spark,
    Databricks,
    Snowflake,
    BigQuery,
    Trino,
    Mysql,
    Sqlite,
    Tsql,
}

/// The canonical name of each dialect.
pub open spec fn canonical_name(d: SqlDialect) -> Seq<char> {
    match d {
        SqlDialect::Ansi => "ansi"@,
        SqlDialect::Postgres => "postgres"@,
        SqlDialect::DuckDb => "duckdb"@,
        SqlDialect::Spark => "spark"@,
        SqlDialect::Databricks => "databricks"@,
        SqlDialect::Snowflake => "snowflake"@,
        SqlDialect::BigQuery => "bigquery"@,
        SqlDialect::Trino => "trino"@,
        SqlDialect::Mysql => "mysql"@,
        SqlDialect::Sqlite => "sqlite"@,
        SqlDialect::Tsql => "tsql"@,
    }
}

/// The dialect a normalized name (trimmed, lowercased) stands for: a
/// canonical name or one of the aliases `postgresql`, `mssql`, `sqlserver`.
pub open spec fn dialect_named(n: Seq<char>) -> Option<SqlDialect> {
    if n == "ansi"@ {
        Some(SqlDialect::Ansi)
    } else if n == "postgres"@ || n == "postgresql"@ {
        Some(SqlDialect::Postgres)
    } else if n == "duckdb"@ {
        Some(SqlDialect::DuckDb)
    } else if n == "spark"@ {
        Some(SqlDialect::Spark)
    } else if n == "databricks"@ {
        Some(SqlDialect::Databricks)
    } else if n == "snowflake"@ {
        Some(SqlDialect::Snowflake)
    } else if n == "bigquery"@ {
        Some(SqlDialect::BigQuery)
    } else if n == "trino"@ {
        Some(SqlDialect::Trino)
    } else if n == "mysql"@ {
        Some(SqlDialect::Mysql)
    } else if n == "sqlite"@ {
        Some(SqlDialect::Sqlite)
    } else if n == "tsql"@ || n == "mssql"@ || n == "sqlserver"@ {
        Some(SqlDialect::Tsql)
    } else {
        None
    }
}

/// A character `str::trim` removes (Unicode `White_Space`).
pub open spec fn trimmable(c: char) -> bool {
    crate::json_reader::is_unicode_space(c)
}

/// `s` without leading and trailing whitespace.
pub open spec fn trimmed(s: Seq<char>) -> Seq<char> {
    s.subrange(lead_len(s), s.len() - trail_len(s.skip(lead_len(s))))
}

/// How many leading characters are whitespace.
pub open spec fn lead_len(s: Seq<char>) -> int
    decreases s.len(),
{
    if s.len() == 0 || !trimmable(s[0]) {
        0
    } else {
        1 + lead_len(s.skip(1))
    }
}

/// How many trailing characters are whitespace.
pub open spec fn trail_len(s: Seq<char>) -> int
    decreases s.len(),
{
    if s.len() == 0 || !trimmable(s.last()) {
        0
    } else {
        1 + trail_len(s.drop_last())
    }
}

proof fn lemma_lead_len(s: Seq<char>)
    ensures
        0 <= lead_len(s) <= s.len(),
    decreases s.len(),
{
    if s.len() > 0 && trimmable(s[0]) {
        lemma_lead_len(s.skip(1));
    }
}

proof fn lemma_trail_len(s: Seq<char>)
    ensures
        0 <= trail_len(s) <= s.len(),
    decreases s.len(),
{
    if s.len() > 0 && trimmable(s.last()) {
        lemma_trail_len(s.drop_last());
    }
}

fn is_trimmable(c: char) -> (r: bool)
    ensures
        r == trimmable(c),
{
    ('\u{9}' <= c && c <= '\u{d}') || c == ' ' || c == '\u{85}' || c == '\u{a0}' || c == '\u{1680}' || (
    '\u{2000}' <= c && c <= '\u{200a}') || c == '\u{2028}' || c == '\u{2029}' || c == '\u{202f}' || c
        == '\u{205f}' || c == '\u{3000}'
}

/// `s` trimmed of whitespace at both ends.
pub fn trim(s: &str) -> (r: String)
    ensures
        r@ == trimmed(s@),
{
    let c = chars_of(s);
    let n = c.len();
    let mut a: usize = 0;
    proof {
        lemma_lead_len(s@);
    }
    assert(s@.skip(0) =~= s@);
    while a < n && is_trimmable(c[a])
        invariant
            a <= n,
            n == s@.len(),
            c@ == s@,
            lead_len(s@) == a + lead_len(s@.skip(a as int)),
        decreases n - a,
    {
        assert(s@.skip(a as int)[0] == c@[a as int]);
        assert(s@.skip(a as int).skip(1) =~= s@.skip(a + 1));
        a = a + 1;
    }
    assert(lead_len(s@.skip(a as int)) == 0) by {
        if a < n {
            assert(s@.skip(a as int)[0] == c@[a as int]);
        }
    }
    let ghost t = s@.skip(a as int);
    proof {
        lemma_trail_len(t);
    }
    let mut b: usize = n;
    assert(t.take(n - a) =~= t);
    while b > a && is_trimmable(c[b - 1])
        invariant
            a <= b <= n,
            n == s@.len(),
            c@ == s@,
            t == s@.skip(a as int),
            trail_len(t) == (n - b) + trail_len(t.take(b - a)),
        decreases b,
    {
        let ghost u = t.take(b - a);
        assert(u.last() == c@[b - 1]);
        assert(u.drop_last() =~= t.take(b - 1 - a));
        b = b - 1;
    }
    assert(trail_len(t.take(b - a)) == 0) by {
        if b > a {
            assert(t.take(b - a).last() == c@[b - 1]);
        }
    }
    let mut r = String::new();
    let mut i = a;
    while i < b
        invariant
            a <= i <= b,
            b <= n,
            c@ == s@,
            n == s@.len(),
            r@ == s@.subrange(a as int, i as int),
        decreases b - i,
    {
        crate::text::push_char(&mut r, c[i]);
        assert(r@ =~= s@.subrange(a as int, i + 1));
        i = i + 1;
    }
    r
}

} // verus!

verus! {

/// The canonical names joined for the unsupported-dialect remediation.
pub open spec fn supported_dialects() -> Seq<char> {
    "ansi, postgres, duckdb, spark, databricks, snowflake, bigquery, trino, mysql, sqlite, tsql"@
}

fn canonical(d: SqlDialect) -> (s: &'static str)
    ensures
        s@ == canonical_name(d),
{
    match d {
        SqlDialect::Ansi => "ansi",
        SqlDialect::Postgres => "postgres",
        SqlDialect::DuckDb => "duckdb",
        SqlDialect::Spark => "spark",
        SqlDialect::Databricks => "databricks",
        SqlDialect::Snowflake => "snowflake",
        SqlDialect::BigQuery => "bigquery",
        SqlDialect::Trino => "trino",
        SqlDialect::Mysql => "mysql",
        SqlDialect::Sqlite => "sqlite",
        SqlDialect::Tsql => "tsql",
    }
}

fn named(n: &str) -> (r: Option<SqlDialect>)
    ensures
        r == dialect_named(n@),
{
    if str_eq(n, "ansi") {
        Some(SqlDialect::Ansi)
    } else if str_eq(n, "postgres") || str_eq(n, "postgresql") {
        Some(SqlDialect::Postgres)
    } else if str_eq(n, "duckdb") {
        Some(SqlDialect::DuckDb)
    } else if str_eq(n, "spark") {
        Some(SqlDialect::Spark)
    } else if str_eq(n, "databricks") {
        Some(SqlDialect::Databricks)
    } else if str_eq(n, "snowflake") {
        Some(SqlDialect::Snowflake)
    } else if str_eq(n, "bigquery") {
        Some(SqlDialect::BigQuery)
    } else if str_eq(n, "trino") {
        Some(SqlDialect::Trino)
    } else if str_eq(n, "mysql") {
        Some(SqlDialect::Mysql)
    } else if str_eq(n, "sqlite") {
        Some(SqlDialect::Sqlite)
    } else if str_eq(n, "tsql") || str_eq(n, "mssql") || str_eq(n, "sqlserver") {
        Some(SqlDialect::Tsql)
    } else {
        None
    }
}

/// Resolve a dialect name (case-insensitive, surrounding whitespace
/// ignored) to its canonical name and dialect; an unknown name is
/// unsupported input naming it.
pub fn resolve(name: &str) -> (r: Result<(&'static str, SqlDialect), DatagovError>)
    ensures
        match dialect_named(lower(trimmed(name@))) {
            Some(d) => r is Ok && r->Ok_0.1 == d && r->Ok_0.0@ == canonical_name(d),
            None => r is Err && r->Err_0 is UnsupportedInput && r->Err_0.spec_message()
                == "unsupported SQL dialect: '"@ + name@ + "'"@ && r->Err_0.spec_remediation()
                == "use one of the supported dialects: "@ + supported_dialects(),
        },
{
    let t = trim(name);
    let normalized = to_ascii_lowercase(t.as_str());
    match named(normalized.as_str()) {
        Some(d) => Ok((canonical(d), d)),
        None => {
            let m = concat3("unsupported SQL dialect: '", name, "'");
            let rem = concat2(
                "use one of the supported dialects: ",
                "ansi, postgres, duckdb, spark, databricks, snowflake, bigquery, trino, mysql, sqlite, tsql",
            );
            Err(DatagovError::unsupported_input(m.as_str(), rem.as_str()))
        },
    }
}

/// The display name `sqlglot_rust` gives each dialect.
pub open spec fn display_name(d: SqlDialect) -> Seq<char> {
    match d {
        SqlDialect::Ansi => "ANSI SQL"@,
        SqlDialect::Postgres => "PostgreSQL"@,
        SqlDialect::DuckDb => "DuckDB"@,
        SqlDialect::Spark => "Spark"@,
        SqlDialect::Databricks => "Databricks"@,
        SqlDialect::Snowflake => "Snowflake"@,
        SqlDialect::BigQuery => "BigQuery"@,
        SqlDialect::Trino => "Trino"@,
        SqlDialect::Mysql => "MySQL"@,
        SqlDialect::Sqlite => "SQLite"@,
        SqlDialect::Tsql => "T-SQL"@,
    }
}

/// The dialect type of `sqlglot_rust`.
#[verifier::external_type_specification]
#[verifier::external_body]
pub struct ExternalDialect(sqlglot_rust::Dialect);

/// A parsed statement of `sqlglot_rust`.
#[verifier::external_type_specification]
#[verifier::external_body]
pub struct ExternalStatement(sqlglot_rust::Statement);

/// The `sqlglot_rust::Dialect` variant of each dialect, one for one.
#[verifier::external_body]
pub(crate) fn to_sqlglot(d: SqlDialect) -> sqlglot_rust::Dialect {
    match d {
        SqlDialect::Ansi => sqlglot_rust::Dialect::Ansi,
        SqlDialect::Postgres => sqlglot_rust::Dialect::Postgres,
        SqlDialect::DuckDb => sqlglot_rust::Dialect::DuckDb,
        SqlDialect::Spark => sqlglot_rust::Dialect::Spark,
        SqlDialect::Databricks => sqlglot_rust::Dialect::Databricks,
        SqlDialect::Snowflake => sqlglot_rust::Dialect::Snowflake,
        SqlDialect::BigQuery => sqlglot_rust::Dialect::BigQuery,
        SqlDialect::Trino => sqlglot_rust::Dialect::Trino,
        SqlDialect::Mysql => sqlglot_rust::Dialect::Mysql,
        SqlDialect::Sqlite => sqlglot_rust::Dialect::Sqlite,
        SqlDialect::Tsql => sqlglot_rust::Dialect::Tsql,
    }
}

/// The `Display` rendering of a dialect by `sqlglot_rust`, which its
/// source fixes per variant as `display_name` states.
#[verifier::external_body]
fn dialect_display(d: SqlDialect) -> (s: String)
    ensures
        s@ == display_name(d),
{
    to_sqlglot(d).to_string()
}

/// What `sqlglot_rust::parse` reports for `sql` in `dialect`: `None` when
/// it parses, otherwise the display text of its error.
pub uninterp spec fn sql_parse_error(sql: Seq<char>, dialect: SqlDialect) -> Option<Seq<char>>;

/// What `sqlglot_rust::generate_pretty` renders for the statement that
/// `sqlglot_rust::parse` makes of `sql` in `dialect`, in that dialect.
pub uninterp spec fn sql_pretty(sql: Seq<char>, dialect: SqlDialect) -> Seq<char>;

/// Parses `sql` with `sqlglot_rust::parse` and pretty-prints the statement
/// with `sqlglot_rust::generate_pretty`. Whether it parses, and the error
/// text when not, is the parser's (`sql_parse_error`); the pretty text is
/// named `sql_pretty`.
#[verifier::external_body]
fn pretty_format(sql: &str, dialect: SqlDialect) -> (r: Result<String, String>)
    ensures
        match r {
            Ok(s) => sql_parse_error(sql@, dialect) is None && s@ == sql_pretty(sql@, dialect),
            Err(e) => sql_parse_error(sql@, dialect) == Some(e@),
        },
{
    let stmt = sqlglot_rust::parse(sql, to_sqlglot(dialect)).map_err(|e| e.to_string())?;
    Ok(sqlglot_rust::generate_pretty(&stmt, to_sqlglot(dialect)))
}

/// What `sqlglot_rust::transpile` makes of `sql` from one dialect to
/// another: the output SQL, or the display text of its error.
pub uninterp spec fn sql_transpiled(sql: Seq<char>, from: SqlDialect, to: SqlDialect) -> Result<
    Seq<char>,
    Seq<char>,
>;

/// Transpiles `sql` with `sqlglot_rust::transpile` (parse, the crate's
/// dialect transform, generation). The outcome is the crate's, named
/// `sql_transpiled`.
#[verifier::external_body]
fn transpile_text(sql: &str, from: SqlDialect, to: SqlDialect) -> (r: Result<String, String>)
    ensures
        match r {
            Ok(s) => sql_transpiled(sql@, from, to) == Ok::<Seq<char>, Seq<char>>(s@),
            Err(e) => sql_transpiled(sql@, from, to) == Err::<Seq<char>, Seq<char>>(e@),
        },
{
    sqlglot_rust::transpile(sql, to_sqlglot(from), to_sqlglot(to)).map_err(|e| e.to_string())
}

/// The error for SQL that does not parse.
pub(crate) fn invalid_sql(detail: &str) -> (e: DatagovError)
    ensures
        e is InvalidArgs && e.spec_message() == "invalid SQL: "@ + detail@ && e.spec_remediation()
            == "check the query syntax"@,
{
    let m = concat2("invalid SQL: ", detail);
    DatagovError::invalid_args(m.as_str(), "check the query syntax")
}

/// Pretty-print `sql` in the named dialect. Fails when the dialect is not
/// supported (unsupported input) or the SQL does not parse in it (invalid
/// arguments); the pretty text is the parser's generator's (`sql_pretty`).
pub fn format(sql: &str, dialect_name: &str) -> (r: Result<String, DatagovError>)
    ensures
        match dialect_named(lower(trimmed(dialect_name@))) {
            None => r is Err && r->Err_0 is UnsupportedInput && r->Err_0.spec_message()
                == "unsupported SQL dialect: '"@ + dialect_name@ + "'"@,
            Some(d) => match sql_parse_error(sql@, d) {
                Some(e) => r is Err && r->Err_0 is InvalidArgs && r->Err_0.spec_message() == "invalid SQL: "@ + e,
                None => r is Ok && r->Ok_0@ == sql_pretty(sql@, d),
            },
        },
{
    let (_, d) = match resolve(dialect_name) {
        Ok(x) => x,
        Err(e) => {
            return Err(e);
        },
    };
    match pretty_format(sql, d) {
        Ok(text) => Ok(text),
        Err(e) => Err(invalid_sql(e.as_str())),
    }
}

} // verus!

verus! {

/// A FROM source as far as the warnings look into it.
#[derive(Debug, Clone, Copy, PartialEq, Eq, Structural)]
pub enum SourceKind {
    Lateral,
    Pivot,
    Unpivot,
    Other,
}

/// What the transpile warnings look at in a parsed statement: whether it
/// is a SELECT, whether it has a QUALIFY clause, and its FROM source
/// followed through LATERAL wrappers.
#[derive(Debug)]
pub struct StatementFacts {
    pub is_select: bool,
    pub has_qualify: bool,
    pub from_chain: Vec<SourceKind>,
}

/// The kinds along a FROM source, followed through LATERAL wrappers.
pub open spec fn source_chain(s: SourceShape) -> Seq<SourceKind>
    decreases s,
{
    match s {
        SourceShape::Lateral(inner) => seq![SourceKind::Lateral] + source_chain(*inner),
        SourceShape::Pivot(..) => seq![SourceKind::Pivot],
        SourceShape::Unpivot(..) => seq![SourceKind::Unpivot],
        _ => seq![SourceKind::Other],
    }
}

/// Whether a statement's shape has a QUALIFY clause.
pub open spec fn shape_qualify(shape: StatementShape) -> bool {
    match shape.select {
        Some(s) => s.qualify,
        None => false,
    }
}

/// The kinds along a statement's FROM source; empty without one.
pub open spec fn shape_chain(shape: StatementShape) -> Seq<SourceKind> {
    match shape.select {
        Some(s) => match s.from {
            Some(f) => source_chain(f),
            None => Seq::empty(),
        },
        None => Seq::empty(),
    }
}

fn push_source_chain(s: &SourceShape, out: &mut Vec<SourceKind>)
    ensures
        final(out)@ == old(out)@ + source_chain(*s),
    decreases s,
{
    match s {
        SourceShape::Lateral(inner) => {
            let ghost before = out@;
            out.push(SourceKind::Lateral);
            push_source_chain(inner, out);
            assert(out@ =~= before + source_chain(*s));
        },
        SourceShape::Pivot(..) => {
            out.push(SourceKind::Pivot);
        },
        SourceShape::Unpivot(..) => {
            out.push(SourceKind::Unpivot);
        },
        _ => {
            out.push(SourceKind::Other);
        },
    }
}

/// The facts the warnings look at in a parsed statement's shape.
pub fn statement_facts(shape: &StatementShape) -> (f: StatementFacts)
    ensures
        f.is_select == (shape.kind == StatementKind::Select),
        f.has_qualify == shape_qualify(*shape),
        f.from_chain@ == shape_chain(*shape),
{
    let mut chain: Vec<SourceKind> = Vec::new();
    let mut has_qualify = false;
    match &shape.select {
        Some(sel) => {
            has_qualify = sel.qualify;
            match &sel.from {
                Some(src) => {
                    push_source_chain(src, &mut chain);
                    assert(chain@ =~= source_chain(*src));
                },
                None => {
                    assert(chain@ =~= Seq::<SourceKind>::empty());
                },
            }
        },
        None => {
            assert(chain@ =~= Seq::<SourceKind>::empty());
        },
    }
    StatementFacts {
        is_select: shape.kind == StatementKind::Select,
        has_qualify,
        from_chain: chain,
    }
}

/// The FROM source, looked at through LATERAL wrappers, is a PIVOT or
/// UNPIVOT.
pub open spec fn chain_has_pivot(chain: Seq<SourceKind>) -> bool
    decreases chain.len(),
{
    if chain.len() == 0 {
        false
    } else {
        match chain[0] {
            SourceKind::Lateral => chain_has_pivot(chain.skip(1)),
            SourceKind::Pivot | SourceKind::Unpivot => true,
            SourceKind::Other => false,
        }
    }
}

/// The dialects that support QUALIFY natively.
pub open spec fn qualify_supported(d: SqlDialect) -> bool {
    d == SqlDialect::Snowflake || d == SqlDialect::BigQuery || d == SqlDialect::DuckDb || d
        == SqlDialect::Databricks
}

/// The dialects that support PIVOT/UNPIVOT natively.
pub open spec fn pivot_supported(d: SqlDialect) -> bool {
    d == SqlDialect::Tsql || d == SqlDialect::Snowflake || d == SqlDialect::BigQuery || d
        == SqlDialect::Spark || d == SqlDialect::Databricks || d == SqlDialect::DuckDb
}

/// A construct carried into a dialect that may not run it as-is.
#[derive(Debug)]
pub struct TranspileWarning {
    pub construct: String,
    pub message: String,
}

/// The warning message for a construct carried into dialect `to`.
pub open spec fn warning_message(what: Seq<char>, construct: Seq<char>, to: SqlDialect) -> Seq<char> {
    what + " was carried into the output unchanged, but "@ + display_name(to)
        + " does not natively support "@ + construct
        + " — the generated SQL may not execute as-is on "@ + display_name(to)
}

/// The warnings for a statement transpiled into `to`: QUALIFY first, then
/// PIVOT/UNPIVOT, each only for a SELECT and only when `to` lacks it.
pub open spec fn warnings_spec(is_select: bool, has_qualify: bool, chain: Seq<SourceKind>, to: SqlDialect) -> Seq<(Seq<char>, Seq<char>)> {
    if !is_select {
        Seq::empty()
    } else {
        (if has_qualify && !qualify_supported(to) {
            seq![("QUALIFY"@, warning_message("the QUALIFY clause"@, "QUALIFY"@, to))]
        } else {
            Seq::empty()
        }) + (if chain_has_pivot(chain) && !pivot_supported(to) {
            seq![("PIVOT/UNPIVOT"@, warning_message("a PIVOT/UNPIVOT clause"@, "PIVOT/UNPIVOT"@, to))]
        } else {
            Seq::empty()
        })
    }
}

/// The views of a list of warnings.
pub open spec fn warning_views(v: Seq<TranspileWarning>) -> Seq<(Seq<char>, Seq<char>)> {
    v.map_values(|w: TranspileWarning| (w.construct@, w.message@))
}

fn has_pivot(chain: &Vec<SourceKind>) -> (r: bool)
    ensures
        r == chain_has_pivot(chain@),
{
    let mut i: usize = 0;
    assert(chain@.skip(0) =~= chain@);
    while i < chain.len()
        invariant
            i <= chain@.len(),
            chain_has_pivot(chain@) == chain_has_pivot(chain@.skip(i as int)),
        decreases chain.len() - i,
    {
        assert(chain@.skip(i as int)[0] == chain@[i as int]);
        assert(chain@.skip(i as int).skip(1) =~= chain@.skip(i + 1));
        match chain[i] {
            SourceKind::Lateral => {},
            SourceKind::Pivot | SourceKind::Unpivot => {
                return true;
            },
            SourceKind::Other => {
                return false;
            },
        }
        i = i + 1;
    }
    false
}

fn warning(what: &str, construct: &str, to: SqlDialect) -> (w: TranspileWarning)
    ensures
        w.construct@ == construct@,
        w.message@ == warning_message(what@, construct@, to),
{
    let name = dialect_display(to);
    let a = concat5(what, " was carried into the output unchanged, but ", name.as_str(), " does not natively support ", construct);
    let m = concat3(a.as_str(), " — the generated SQL may not execute as-is on ", name.as_str());
    TranspileWarning { construct: String::from_str(construct), message: m }
}

/// The transpile warnings for a statement with these facts.
pub fn detect_warnings(facts: &StatementFacts, to: SqlDialect) -> (w: Vec<TranspileWarning>)
    ensures
        warning_views(w@) == warnings_spec(facts.is_select, facts.has_qualify, facts.from_chain@, to),
{
    let mut w: Vec<TranspileWarning> = Vec::new();
    if !facts.is_select {
        assert(warning_views(w@) =~= Seq::empty());
        return w;
    }
    let qualify_ok = match to {
        SqlDialect::Snowflake | SqlDialect::BigQuery | SqlDialect::DuckDb | SqlDialect::Databricks => true,
        _ => false,
    };
    if facts.has_qualify && !qualify_ok {
        w.push(warning("the QUALIFY clause", "QUALIFY", to));
    }
    let ghost first = warning_views(w@);
    let pivot_ok = match to {
        SqlDialect::Tsql | SqlDialect::Snowflake | SqlDialect::BigQuery | SqlDialect::Spark
        | SqlDialect::Databricks | SqlDialect::DuckDb => true,
        _ => false,
    };
    if has_pivot(&facts.from_chain) && !pivot_ok {
        w.push(warning("a PIVOT/UNPIVOT clause", "PIVOT/UNPIVOT", to));
    }
    assert(warning_views(w@) =~= warnings_spec(facts.is_select, facts.has_qualify, facts.from_chain@, to));
    w
}

/// The result of a transpile.
#[derive(Debug)]
pub struct SqlTranspileResult {
    pub from_dialect: String,
    pub to_dialect: String,
    pub output_sql: String,
    pub warnings: Vec<TranspileWarning>,
}

/// Transpile `sql` between two named dialects. Fails when a dialect is
/// not supported (unsupported input, the source dialect checked first),
/// when the SQL does not parse in the source dialect, or when the
/// transpiler fails (invalid arguments). The output SQL is the
/// transpiler's; the warnings follow the facts of the parsed statement's
/// shape (see `statement_facts`).
pub fn transpile(sql: &str, from_name: &str, to_name: &str) -> (r: Result<SqlTranspileResult, DatagovError>)
    ensures
        match (dialect_named(lower(trimmed(from_name@))), dialect_named(lower(trimmed(to_name@)))) {
            (None, _) => r is Err && r->Err_0 is UnsupportedInput && r->Err_0.spec_message()
                == "unsupported SQL dialect: '"@ + from_name@ + "'"@,
            (Some(_), None) => r is Err && r->Err_0 is UnsupportedInput && r->Err_0.spec_message()
                == "unsupported SQL dialect: '"@ + to_name@ + "'"@,
            (Some(f), Some(t)) => match sql_parse_error(sql@, f) {
                Some(e) => r is Err && r->Err_0 is InvalidArgs && r->Err_0.spec_message() == "invalid SQL: "@ + e,
                None => match sql_transpiled(sql@, f, t) {
                    Err(e) => r is Err && r->Err_0 is InvalidArgs && r->Err_0.spec_message()
                        == "failed to transpile SQL: "@ + e,
                    Ok(out) => r is Ok && r->Ok_0.from_dialect@ == canonical_name(f)
                        && r->Ok_0.to_dialect@ == canonical_name(t) && r->Ok_0.output_sql@ == out
                        && warning_views(r->Ok_0.warnings@) == warnings_spec(
                        sql_statement_shape(sql@, f).kind == StatementKind::Select,
                        shape_qualify(sql_statement_shape(sql@, f)),
                        shape_chain(sql_statement_shape(sql@, f)),
                        t,
                    ),
                },
            },
        },
{
    let (from_label, from) = match resolve(from_name) {
        Ok(x) => x,
        Err(e) => {
            return Err(e);
        },
    };
    let (to_label, to) = match resolve(to_name) {
        Ok(x) => x,
        Err(e) => {
            return Err(e);
        },
    };
    let shape = match parse_shape(sql, from) {
        Ok(s) => s,
        Err(e) => {
            return Err(invalid_sql(e.as_str()));
        },
    };
    let facts = statement_facts(&shape);
    let warnings = detect_warnings(&facts, to);
    match transpile_text(sql, from, to) {
        Ok(output_sql) => Ok(
            SqlTranspileResult {
                from_dialect: String::from_str(from_label),
                to_dialect: String::from_str(to_label),
                output_sql,
                warnings,
            },
        ),
        Err(e) => {
            let m = concat2("failed to transpile SQL: ", e.as_str());
            Err(
                DatagovError::invalid_args(
                    m.as_str(),
                    "check the query syntax, or that the source SQL is representable in the target dialect",
                ),
            )
        },
    }
}

} // verus!

verus! {

/// A table the parsed statement reads, with its alias.
#[derive(Debug)]
pub struct TableRef {
    pub name: String,
    pub alias: Option<String>,
}

/// One JOIN clause: its kind, the joined table, and its ON predicate.
#[derive(Debug)]
pub struct JoinRef {
    pub kind: String,
    pub table: String,
    pub on: Option<String>,
}

} // verus!

verus! {

/// `sql format --write` rewrites its input file, so it needs a real path.
pub fn check_format_write(path: &str, write: bool) -> (r: Result<(), DatagovError>)
    ensures
        (write && path@ == "-"@) <==> r is Err,
        r matches Err(e) ==> e is InvalidArgs && e.spec_message()
            == "'sql format --write' requires a real file path"@ && e.spec_remediation()
            == "stdin ('-') has no source file to modify; omit --write or pass a file path"@,
{
    if write && str_eq(path, "-") {
        Err(
            DatagovError::invalid_args(
                "'sql format --write' requires a real file path",
                "stdin ('-') has no source file to modify; omit --write or pass a file path",
            ),
        )
    } else {
        Ok(())
    }
}

} // verus!

verus! {

/// The dialects that run a QUALIFY clause natively are exactly Snowflake,
/// BigQuery, DuckDB and Databricks; those that run PIVOT/UNPIVOT natively
/// are exactly T-SQL, Snowflake, BigQuery, Spark, Databricks and DuckDB.
/// A transpiled SELECT warns about QUALIFY exactly when it has one and the
/// target is not among the first, and about PIVOT/UNPIVOT exactly when its
/// FROM source is one and the target is not among the second; the QUALIFY
/// warning comes first, and a statement that is not a SELECT never warns.
pub proof fn lemma_transpile_warning_dialects(
    is_select: bool,
    has_qualify: bool,
    chain: Seq<SourceKind>,
    to: SqlDialect,
)
    ensures
        ({
            let native_qualify = to == SqlDialect::Snowflake || to == SqlDialect::BigQuery || to
                == SqlDialect::DuckDb || to == SqlDialect::Databricks;
            let native_pivot = to == SqlDialect::Tsql || to == SqlDialect::Snowflake || to
                == SqlDialect::BigQuery || to == SqlDialect::Spark || to == SqlDialect::Databricks || to
                == SqlDialect::DuckDb;
            let q = is_select && has_qualify && !native_qualify;
            let p = is_select && chain_has_pivot(chain) && !native_pivot;
            let w = warnings_spec(is_select, has_qualify, chain, to);
            &&& w.len() == (if q { 1int } else { 0int }) + (if p { 1int } else { 0int })
            &&& q ==> w[0].0 == "QUALIFY"@ && w[0].1 == "the QUALIFY clause was carried into the output unchanged, but "@
                + display_name(to) + " does not natively support QUALIFY — the generated SQL may not execute as-is on "@
                + display_name(to)
            &&& p ==> w[w.len() - 1].0 == "PIVOT/UNPIVOT"@
        }),
{
    let w = warnings_spec(is_select, has_qualify, chain, to);
    if is_select {
        let a = if has_qualify && !qualify_supported(to) {
            seq![("QUALIFY"@, warning_message("the QUALIFY clause"@, "QUALIFY"@, to))]
        } else {
            Seq::<(Seq<char>, Seq<char>)>::empty()
        };
        let b = if chain_has_pivot(chain) && !pivot_supported(to) {
            seq![("PIVOT/UNPIVOT"@, warning_message("a PIVOT/UNPIVOT clause"@, "PIVOT/UNPIVOT"@, to))]
        } else {
            Seq::<(Seq<char>, Seq<char>)>::empty()
        };
        assert(w == a + b);
        reveal_strlit("the QUALIFY clause");
        reveal_strlit("the QUALIFY clause was carried into the output unchanged, but ");
        reveal_strlit(" was carried into the output unchanged, but ");
        assert("the QUALIFY clause"@ + " was carried into the output unchanged, but "@
            =~= "the QUALIFY clause was carried into the output unchanged, but "@);
        reveal_strlit(" does not natively support ");
        reveal_strlit("QUALIFY");
        reveal_strlit(" — the generated SQL may not execute as-is on ");
        reveal_strlit(" does not natively support QUALIFY — the generated SQL may not execute as-is on ");
        assert(" does not natively support "@ + "QUALIFY"@ + " — the generated SQL may not execute as-is on "@
            =~= " does not natively support QUALIFY — the generated SQL may not execute as-is on "@);
        if has_qualify && !qualify_supported(to) {
            assert(w[0] == a[0]);
            assert(warning_message("the QUALIFY clause"@, "QUALIFY"@, to) =~= "the QUALIFY clause was carried into the output unchanged, but "@
                + display_name(to) + " does not natively support QUALIFY — the generated SQL may not execute as-is on "@
                + display_name(to));
        }
        if chain_has_pivot(chain) && !pivot_supported(to) {
            assert(w[w.len() - 1] == b[0]);
        }
    }
}

} // verus!
