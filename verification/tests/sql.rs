use datagov::exit::ExitCode;
use datagov::parse_result::{
    build, describe_table_source, parse, split_and_conjuncts, JoinKind, JoinShape, OrderShape, PredicateShape,
    SelectItemShape, SelectShape, SourceShape, StatementKind, StatementShape, TableName,
};
use datagov::sql::{detect_warnings, resolve, transpile, SourceKind, SqlDialect, StatementFacts};

const PRIORITY: [&str; 11] = [
    "ansi", "postgres", "duckdb", "spark", "databricks", "snowflake", "bigquery", "trino", "mysql", "sqlite", "tsql",
];

#[test]
fn format_pretty_prints_without_mutating_semantics() {
    let out = datagov::sql::format("SELECT a,b FROM t WHERE a>1", "ansi").unwrap();
    assert!(out.contains("SELECT"));
    assert!(out.contains('\n'), "pretty output should be multi-line");
}

#[test]
fn resolves_every_priority_dialect_by_canonical_name() {
    for name in PRIORITY {
        let (label, _) = resolve(name).unwrap();
        assert_eq!(label, name);
    }
}

#[test]
fn resolves_case_insensitively() {
    let (label, dialect) = resolve("  PostgreSQL ").unwrap();
    assert_eq!(label, "postgres");
    assert_eq!(dialect, SqlDialect::Postgres);
}

#[test]
fn resolves_known_aliases() {
    assert_eq!(resolve("postgresql").unwrap().0, "postgres");
    assert_eq!(resolve("mssql").unwrap().0, "tsql");
    assert_eq!(resolve("sqlserver").unwrap().0, "tsql");
}

#[test]
fn unrecognized_name_is_unsupported_input() {
    let err = resolve("not_a_real_dialect").unwrap_err();
    assert_eq!(err.exit_code(), ExitCode::UnsupportedInput);
    assert_eq!(err.message(), "unsupported SQL dialect: 'not_a_real_dialect'");
    assert_eq!(
        err.remediation(),
        "use one of the supported dialects: ansi, postgres, duckdb, spark, databricks, snowflake, bigquery, trino, mysql, sqlite, tsql"
    );
}

#[test]
fn dialect_the_underlying_crate_knows_but_is_outside_the_priority_list_is_rejected() {
    let err = resolve("oracle").unwrap_err();
    assert_eq!(err.exit_code(), ExitCode::UnsupportedInput);
}

#[test]
fn unknown_dialect_exits_4_for_all_three_subcommands() {
    assert_eq!(datagov::sql::format("SELECT 1", "not_a_real_dialect").unwrap_err().exit_code().code(), 4);
    assert_eq!(transpile("SELECT 1", "not_a_real_dialect", "postgres").unwrap_err().exit_code().code(), 4);
    assert_eq!(transpile("SELECT 1", "ansi", "not_a_real_dialect").unwrap_err().exit_code().code(), 4);
}

#[test]
fn transpile_spark_to_duckdb_round_trips_a_join_group_by() {
    let sql = "SELECT t.state, COUNT(*) AS total FROM customers t INNER JOIN orders o ON t.id = o.customer_id GROUP BY t.state ORDER BY t.state";
    let result = transpile(sql, "spark", "duckdb").unwrap();
    assert_eq!(result.from_dialect, "spark");
    assert_eq!(result.to_dialect, "duckdb");
    assert!(result.output_sql.contains("GROUP BY"));
    assert!(result.warnings.is_empty());
}

#[test]
fn transpile_lossy_qualify_into_ansi_produces_a_warning() {
    let sql = "SELECT id, ROW_NUMBER() OVER (PARTITION BY state ORDER BY id) AS rn FROM customers QUALIFY rn = 1";
    let result = transpile(sql, "snowflake", "ansi").unwrap();
    assert_eq!(result.warnings.len(), 1);
    assert_eq!(result.warnings[0].construct, "QUALIFY");
    assert_eq!(
        result.warnings[0].message,
        "the QUALIFY clause was carried into the output unchanged, but ANSI SQL does not natively support QUALIFY — the generated SQL may not execute as-is on ANSI SQL"
    );
}

#[test]
fn transpile_applies_the_crates_dialect_transform_not_just_generate() {
    let result = transpile("SELECT TOP 10 a FROM t", "tsql", "postgres").unwrap();
    assert_eq!(result.output_sql, "SELECT a FROM t LIMIT 10");
}

#[test]
fn transpile_unrecognized_dialect_is_unsupported_input() {
    let err = transpile("SELECT 1", "foo", "bar").unwrap_err();
    assert_eq!(err.exit_code(), ExitCode::UnsupportedInput);
    assert_eq!(err.message(), "unsupported SQL dialect: 'foo'");
}

#[test]
fn transpile_malformed_sql_is_invalid_args() {
    let err = transpile("SELECT FROM WHERE", "ansi", "postgres").unwrap_err();
    assert_eq!(err.exit_code(), ExitCode::InvalidArgs);
    assert!(err.message().starts_with("invalid SQL: "));
}

#[test]
fn qualify_into_supporting_dialect_is_silent() {
    let sql = "SELECT a, ROW_NUMBER() OVER (PARTITION BY a ORDER BY b) AS rn FROM t QUALIFY rn = 1";
    let result = transpile(sql, "snowflake", "bigquery").unwrap();
    assert!(result.warnings.is_empty());
}

#[test]
fn pivot_into_unsupporting_dialect_warns() {
    let facts = StatementFacts { is_select: true, has_qualify: false, from_chain: vec![SourceKind::Pivot] };
    let warnings = detect_warnings(&facts, SqlDialect::Postgres);
    assert_eq!(warnings.len(), 1);
    assert_eq!(warnings[0].construct, "PIVOT/UNPIVOT");
    assert!(warnings[0].message.contains("PostgreSQL does not natively support PIVOT/UNPIVOT"));
}

#[test]
fn pivot_into_supporting_dialect_is_silent() {
    let facts = StatementFacts { is_select: true, has_qualify: false, from_chain: vec![SourceKind::Lateral, SourceKind::Unpivot] };
    assert!(detect_warnings(&facts, SqlDialect::DuckDb).is_empty());
    assert_eq!(detect_warnings(&facts, SqlDialect::Sqlite).len(), 1);
}

#[test]
fn plain_select_has_no_warnings() {
    let facts = StatementFacts { is_select: true, has_qualify: false, from_chain: vec![SourceKind::Other] };
    assert!(detect_warnings(&facts, SqlDialect::Ansi).is_empty());
    let facts = StatementFacts { is_select: false, has_qualify: true, from_chain: vec![SourceKind::Pivot] };
    assert!(detect_warnings(&facts, SqlDialect::Ansi).is_empty());
}

#[test]
fn both_warnings_come_qualify_first() {
    let facts = StatementFacts { is_select: true, has_qualify: true, from_chain: vec![SourceKind::Pivot] };
    let warnings = detect_warnings(&facts, SqlDialect::Mysql);
    assert_eq!(warnings.len(), 2);
    assert_eq!(warnings[0].construct, "QUALIFY");
    assert_eq!(warnings[1].construct, "PIVOT/UNPIVOT");
    assert!(warnings[1].message.ends_with("may not execute as-is on MySQL"));
}

#[test]
fn format_write_on_stdin_is_rejected_with_exit_2() {
    let err = datagov::sql::check_format_write("-", true).unwrap_err();
    assert_eq!(err.exit_code().code(), 2);
    assert!(datagov::sql::check_format_write("-", false).is_ok());
    assert!(datagov::sql::check_format_write("query.sql", true).is_ok());
}


#[test]
fn parse_reports_dialect_statement_type_and_tables() {
    let result = parse("SELECT a, b FROM t WHERE a > 1", "ansi").unwrap();
    assert_eq!(result.dialect, "ansi");
    assert_eq!(result.statement_type, "select");
    assert_eq!(result.tables.len(), 1);
    assert_eq!(result.tables[0].name, "t");
    assert_eq!(result.columns, vec!["a", "b"]);
    assert_eq!(result.filters, vec!["a > 1"]);
}

#[test]
fn parse_unrecognized_dialect_is_unsupported_input() {
    let err = parse("SELECT 1", "not_a_dialect").unwrap_err();
    assert_eq!(err.exit_code(), ExitCode::UnsupportedInput);
}

#[test]
fn parse_malformed_sql_is_invalid_args() {
    let err = parse("SELECT FROM WHERE", "ansi").unwrap_err();
    assert_eq!(err.exit_code(), ExitCode::InvalidArgs);
}

#[test]
fn parse_join_group_by_reports_tables_joins_and_grouping() {
    let sql = "SELECT c.state, COUNT(*) AS total FROM customers c INNER JOIN orders o ON c.id = o.customer_id GROUP BY c.state ORDER BY c.state";
    for dialect in ["ansi", "spark", "tsql"] {
        let parsed = parse(sql, dialect).unwrap();
        assert_eq!(parsed.tables.len(), 2, "[{dialect}] expected two tables");
        assert_eq!(parsed.joins.len(), 1, "[{dialect}] expected one join");
        assert_eq!(parsed.joins[0].kind, "inner");
        assert!(parsed.joins[0].on.as_deref().unwrap().contains("customer_id"));
        assert_eq!(parsed.group_by.len(), 1, "[{dialect}] expected one GROUP BY expression");
        assert_eq!(parsed.order_by.len(), 1, "[{dialect}] expected one ORDER BY expression");
    }
}

#[test]
fn parse_splits_where_on_top_level_and() {
    let parsed = parse("SELECT a FROM t WHERE a > 1 AND b = 2 AND (c = 3 OR d = 4)", "ansi").unwrap();
    assert_eq!(parsed.filters.len(), 3);
    assert_eq!(parsed.filters[0], "a > 1");
    assert_eq!(parsed.filters[1], "b = 2");
    assert!(parsed.ast.starts_with('{'));
}

#[test]
fn parse_of_an_insert_reports_only_its_table() {
    let parsed = parse("INSERT INTO s.t (a) VALUES (1)", "postgres").unwrap();
    assert_eq!(parsed.dialect, "postgres");
    assert_eq!(parsed.statement_type, "insert");
    assert_eq!(parsed.tables.len(), 1);
    assert_eq!(parsed.tables[0].name, "s.t");
    assert!(parsed.columns.is_empty());
    assert!(parsed.filters.is_empty());
}

fn table(catalog: Option<&str>, schema: Option<&str>, name: &str, alias: Option<&str>) -> TableName {
    TableName {
        catalog: catalog.map(str::to_string),
        schema: schema.map(str::to_string),
        name: name.to_string(),
        alias: alias.map(str::to_string),
    }
}

#[test]
fn describes_every_kind_of_source() {
    let plain = SourceShape::Table(table(Some("db"), Some("sales"), "orders", Some("o")));
    assert_eq!(describe_table_source(&plain), "db.sales.orders AS o");
    assert_eq!(describe_table_source(&SourceShape::Subquery(None)), "(subquery)");
    assert_eq!(describe_table_source(&SourceShape::Subquery(Some("s".into()))), "(subquery) AS s");
    assert_eq!(describe_table_source(&SourceShape::TableFunction("gen".into(), Some("g".into()))), "gen(...) AS g");
    assert_eq!(describe_table_source(&SourceShape::Unnest(None)), "UNNEST(...)");
    let lateral = SourceShape::Lateral(Box::new(SourceShape::TableFunction("f".into(), None)));
    assert_eq!(describe_table_source(&lateral), "LATERAL f(...)");
    let pivot = SourceShape::Pivot(Box::new(SourceShape::Table(table(None, None, "sales", None))), Some("p".into()));
    assert_eq!(describe_table_source(&pivot), "sales PIVOT(...) AS p");
    let unpivot = SourceShape::Unpivot(Box::new(SourceShape::Table(table(None, Some("x"), "y", None))), None);
    assert_eq!(describe_table_source(&unpivot), "x.y UNPIVOT(...)");
}

#[test]
fn splits_nested_conjunctions_left_to_right() {
    let p = PredicateShape::And(
        Box::new(PredicateShape::And(
            Box::new(PredicateShape::Other("a = 1".into())),
            Box::new(PredicateShape::Other("b = 2".into())),
        )),
        Box::new(PredicateShape::Other("c = 3 OR d = 4".into())),
    );
    let mut out = vec!["existing".to_string()];
    split_and_conjuncts(&p, &mut out);
    assert_eq!(out, vec!["existing", "a = 1", "b = 2", "c = 3 OR d = 4"]);
}

#[test]
fn builds_a_report_from_a_select_shape() {
    let shape = StatementShape {
        kind: StatementKind::Select,
        tables: vec![table(None, Some("s"), "t", Some("x"))],
        select: Some(SelectShape {
            columns: vec![
                SelectItemShape::Wildcard,
                SelectItemShape::QualifiedWildcard("x".into()),
                SelectItemShape::Expr { sql: "COUNT(*)".into(), alias: Some("n".into()) },
            ],
            joins: vec![JoinShape {
                kind: JoinKind::Left,
                source: SourceShape::Table(table(None, None, "u", None)),
                on: Some("x.id = u.id".into()),
            }],
            where_clause: Some(PredicateShape::Other("x.a > 1".into())),
            group_by: vec!["x.a".into()],
            order_by: vec![
                OrderShape { sql: "x.a".into(), ascending: false, nulls_first: Some(true) },
                OrderShape { sql: "x.b".into(), ascending: true, nulls_first: None },
            ],
            ctes: vec!["w".into()],
            qualify: false,
            from: Some(SourceShape::Table(table(None, Some("s"), "t", Some("x")))),
        }),
    };
    let r = build(&shape, "duckdb", "{}".to_string());
    assert_eq!(r.dialect, "duckdb");
    assert_eq!(r.statement_type, "select");
    assert_eq!(r.tables[0].name, "s.t");
    assert_eq!(r.tables[0].alias.as_deref(), Some("x"));
    assert_eq!(r.columns, vec!["*", "x.*", "COUNT(*) AS n"]);
    assert_eq!(r.joins[0].kind, "left");
    assert_eq!(r.joins[0].table, "u");
    assert_eq!(r.filters, vec!["x.a > 1"]);
    assert_eq!(r.order_by, vec!["x.a DESC NULLS FIRST", "x.b ASC"]);
    assert_eq!(r.ctes, vec!["w"]);
    assert_eq!(r.ast, "{}");
}

#[test]
fn statement_facts_follow_the_from_source_through_lateral() {
    let shape = StatementShape {
        kind: StatementKind::Select,
        tables: vec![],
        select: Some(SelectShape {
            columns: vec![],
            joins: vec![],
            where_clause: None,
            group_by: vec![],
            order_by: vec![],
            ctes: vec![],
            qualify: true,
            from: Some(SourceShape::Lateral(Box::new(SourceShape::Pivot(
                Box::new(SourceShape::Table(table(None, None, "sales", None))),
                None,
            )))),
        }),
    };
    let facts = datagov::sql::statement_facts(&shape);
    assert!(facts.is_select);
    assert!(facts.has_qualify);
    assert_eq!(facts.from_chain, vec![SourceKind::Lateral, SourceKind::Pivot]);
    let other = StatementShape { kind: StatementKind::Insert, tables: vec![], select: None };
    let facts = datagov::sql::statement_facts(&other);
    assert!(!facts.is_select && !facts.has_qualify && facts.from_chain.is_empty());
}

#[test]
fn transpile_reports_pivot_from_the_parsed_statement() {
    let sql = "SELECT * FROM sales PIVOT (SUM(amount) FOR quarter IN ('Q1', 'Q2')) AS pvt";
    let result = transpile(sql, "snowflake", "postgres").unwrap();
    assert_eq!(result.warnings.len(), 1);
    assert_eq!(result.warnings[0].construct, "PIVOT/UNPIVOT");
    let silent = transpile(sql, "snowflake", "duckdb").unwrap();
    assert!(silent.warnings.is_empty());
}

#[test]
fn every_corpus_idiomatic_statement_parses_successfully() {
    let corpus = [
        ("ansi", "SELECT a, b FROM t WHERE a > 1 ORDER BY b"),
        ("postgres", "SELECT id, name FROM customers WHERE name ILIKE 'a%' LIMIT 5"),
        ("duckdb", "SELECT state, COUNT(*) AS n FROM customers GROUP BY state"),
        ("spark", "SELECT t.state, COUNT(*) FROM customers t GROUP BY t.state"),
        ("databricks", "SELECT id FROM customers WHERE id IN (1, 2, 3)"),
        ("snowflake", "SELECT id, ROW_NUMBER() OVER (PARTITION BY state ORDER BY id) AS rn FROM customers QUALIFY rn = 1"),
        ("bigquery", "SELECT id FROM customers WHERE state = 'CA'"),
        ("trino", "SELECT id FROM customers LIMIT 10"),
        ("mysql", "SELECT id FROM customers WHERE state = 'CA' LIMIT 10"),
        ("sqlite", "SELECT id FROM customers WHERE id > 1"),
        ("tsql", "SELECT TOP 10 id FROM customers"),
    ];
    for (dialect, sql) in corpus {
        let parsed = parse(sql, dialect).unwrap_or_else(|e| panic!("[{dialect}] {}", e.message()));
        assert_eq!(parsed.dialect, dialect);
        assert_eq!(parsed.statement_type, "select");
    }
}

#[test]
fn qualify_into_unsupporting_dialect_warns() {
    let sql = "SELECT a, ROW_NUMBER() OVER (PARTITION BY a ORDER BY b) AS rn FROM t QUALIFY rn = 1";
    let warnings = transpile(sql, "snowflake", "ansi").unwrap().warnings;
    assert_eq!(warnings.len(), 1);
    assert_eq!(warnings[0].construct, "QUALIFY");
}

#[test]
fn top_n_is_not_flagged_as_lossy() {
    let warnings = transpile("SELECT TOP 10 a FROM t", "tsql", "ansi").unwrap().warnings;
    assert!(warnings.is_empty());
}
