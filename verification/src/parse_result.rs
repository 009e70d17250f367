//! The `sql parse` report: what a parsed statement reads and selects.
//!
//! The parsed statement is taken as a plain shape (its kind, the tables it
//! reads and, for a SELECT, its items, joins, WHERE predicate, grouping,
//! ordering and CTE names, each expression already rendered as text), and
//! the report is built from that shape: table names qualified with their
//! catalog and schema, joins described by kind and source, the WHERE clause
//! split into its top-level AND conjuncts.
use crate::error::DatagovError;
use crate::sql::{
    canonical_name, dialect_named, invalid_sql, resolve, sql_parse_error, to_sqlglot, trimmed, SqlDialect,
};
use crate::sql::{JoinRef, TableRef};
use crate::profile::copy_strings;
use crate::recognizer::strings_view;
use crate::text::{concat2, concat3, lower};
use sqlglot_rust::ast::TableRef as ParsedTable;
use sqlglot_rust::ast::{BinaryOperator, JoinType, SelectItem, TableSource};
use sqlglot_rust::{Expr, Statement};
use vstd::prelude::*;

verus! {

/// The kind of a parsed statement.
#[derive(Debug, Clone, Copy, PartialEq, Eq, Structural)]
pub enum StatementKind {
    Select,
    Insert,
    Update,
    Delete,
    CreateTable,
    Other,
}

/// A table reference as the parser records it.
#[derive(Debug)]
pub struct TableName {
    pub catalog: Option<String>,
    pub schema: Option<String>,
    pub name: String,
    pub alias: Option<String>,
}

/// One item of a SELECT list, its expression rendered as text.
#[derive(Debug)]
pub enum SelectItemShape {
    /// `*`
    Wildcard,
    /// `table.*`
    QualifiedWildcard(String),
    /// An expression with an optional alias.
    Expr { sql: String, alias: Option<String> },
}

/// The kind of a JOIN.
#[derive(Debug, Clone, Copy, PartialEq, Eq, Structural)]
pub enum JoinKind {
    Inner,
    Left,
    Right,
    Full,
    Cross,
    Natural,
    Lateral,
}

/// A FROM or JOIN source.
#[derive(Debug)]
pub enum SourceShape {
    Table(TableName),
    /// A subquery, with its alias.
    Subquery(Option<String>),
    /// A table function: its name and alias.
    TableFunction(String, Option<String>),
    Lateral(Box<SourceShape>),
    /// `UNNEST(..)`, with its alias.
    Unnest(Option<String>),
    /// A PIVOT over a source, with its alias.
    Pivot(Box<SourceShape>, Option<String>),
    /// An UNPIVOT over a source, with its alias.
    Unpivot(Box<SourceShape>, Option<String>),
}

/// One JOIN clause: its kind, source, and ON predicate as text.
#[derive(Debug)]
pub struct JoinShape {
    pub kind: JoinKind,
    pub source: SourceShape,
    pub on: Option<String>,
}

/// A predicate as far as its top-level ANDs go.
#[derive(Debug)]
pub enum PredicateShape {
    And(Box<PredicateShape>, Box<PredicateShape>),
    /// Any other predicate, rendered as text.
    Other(String),
}

/// One ORDER BY item.
#[derive(Debug)]
pub struct OrderShape {
    pub sql: String,
    pub ascending: bool,
    /// `NULLS FIRST` (`Some(true)`) or `NULLS LAST` (`Some(false)`).
    pub nulls_first: Option<bool>,
}

/// The parts of a SELECT the report describes.
#[derive(Debug)]
pub struct SelectShape {
    pub columns: Vec<SelectItemShape>,
    pub joins: Vec<JoinShape>,
    pub where_clause: Option<PredicateShape>,
    pub group_by: Vec<String>,
    pub order_by: Vec<OrderShape>,
    pub ctes: Vec<String>,
    /// Whether the SELECT has a QUALIFY clause.
    pub qualify: bool,
    /// The FROM source, when there is one.
    pub from: Option<SourceShape>,
}

/// A parsed statement: its kind, every table it reads, and its SELECT
/// parts when it is a SELECT.
#[derive(Debug)]
pub struct StatementShape {
    pub kind: StatementKind,
    pub tables: Vec<TableName>,
    pub select: Option<SelectShape>,
}

/// The `sql parse` report.
#[derive(Debug)]
pub struct SqlParseResult {
    pub dialect: String,
    /// `select`, `insert`, `update`, `delete`, `create_table` or `other`.
    pub statement_type: String,
    pub tables: Vec<TableRef>,
    /// The selected columns; empty for a statement that is not a SELECT.
    pub columns: Vec<String>,
    pub joins: Vec<JoinRef>,
    /// The top-level AND conjuncts of the WHERE clause.
    pub filters: Vec<String>,
    pub group_by: Vec<String>,
    pub order_by: Vec<String>,
    /// CTE names, in declaration order.
    pub ctes: Vec<String>,
    /// The parser's own tree, as JSON text.
    pub ast: String,
}

/// The view of an optional string.
pub open spec fn opt_view(o: Option<String>) -> Option<Seq<char>> {
    match o {
        Some(s) => Some(s@),
        None => None,
    }
}

fn clone_opt(o: &Option<String>) -> (r: Option<String>)
    ensures
        opt_view(r) == opt_view(*o),
{
    match o {
        Some(s) => Some(s.clone()),
        None => None,
    }
}

/// The report label of a statement kind.
pub open spec fn kind_label(k: StatementKind) -> Seq<char> {
    match k {
        StatementKind::Select => "select"@,
        StatementKind::Insert => "insert"@,
        StatementKind::Update => "update"@,
        StatementKind::Delete => "delete"@,
        StatementKind::CreateTable => "create_table"@,
        StatementKind::Other => "other"@,
    }
}

/// The report label of a statement kind.
pub fn statement_type_label(k: StatementKind) -> (s: &'static str)
    ensures
        s@ == kind_label(k),
{
    match k {
        StatementKind::Select => "select",
        StatementKind::Insert => "insert",
        StatementKind::Update => "update",
        StatementKind::Delete => "delete",
        StatementKind::CreateTable => "create_table",
        StatementKind::Other => "other",
    }
}

/// A table's dotted name: catalog, schema and name, each part present.
pub open spec fn qualified_spec(t: TableName) -> Seq<char> {
    (match t.catalog {
        Some(c) => c@ + "."@,
        None => Seq::empty(),
    }) + (match t.schema {
        Some(s) => s@ + "."@,
        None => Seq::empty(),
    }) + t.name@
}

/// A table's dotted name: catalog, schema and name, each part present.
pub fn qualified_table_name(t: &TableName) -> (s: String)
    ensures
        s@ == qualified_spec(*t),
{
    let mut s = String::new();
    match &t.catalog {
        Some(c) => {
            s.append(c.as_str());
            s.append(".");
        },
        None => {},
    }
    match &t.schema {
        Some(sc) => {
            s.append(sc.as_str());
            s.append(".");
        },
        None => {},
    }
    s.append(t.name.as_str());
    proof {
        reveal_strlit("");
    }
    assert(s@ =~= qualified_spec(*t));
    s
}

/// The text of a SELECT item.
pub open spec fn item_text(i: SelectItemShape) -> Seq<char> {
    match i {
        SelectItemShape::Wildcard => "*"@,
        SelectItemShape::QualifiedWildcard(t) => t@ + ".*"@,
        SelectItemShape::Expr { sql, alias } => match alias {
            Some(a) => sql@ + " AS "@ + a@,
            None => sql@,
        },
    }
}

/// The text of a SELECT item: `*`, `t.*`, or the expression with its alias.
pub fn select_item_text(i: &SelectItemShape) -> (s: String)
    ensures
        s@ == item_text(*i),
{
    match i {
        SelectItemShape::Wildcard => String::from_str("*"),
        SelectItemShape::QualifiedWildcard(t) => concat2(t.as_str(), ".*"),
        SelectItemShape::Expr { sql, alias } => match alias {
            Some(a) => concat3(sql.as_str(), " AS ", a.as_str()),
            None => sql.clone(),
        },
    }
}

/// The report label of a join kind.
pub open spec fn join_kind_label(k: JoinKind) -> Seq<char> {
    match k {
        JoinKind::Inner => "inner"@,
        JoinKind::Left => "left"@,
        JoinKind::Right => "right"@,
        JoinKind::Full => "full"@,
        JoinKind::Cross => "cross"@,
        JoinKind::Natural => "natural"@,
        JoinKind::Lateral => "lateral"@,
    }
}

/// The report label of a join kind.
pub fn join_type_label(k: JoinKind) -> (s: &'static str)
    ensures
        s@ == join_kind_label(k),
{
    match k {
        JoinKind::Inner => "inner",
        JoinKind::Left => "left",
        JoinKind::Right => "right",
        JoinKind::Full => "full",
        JoinKind::Cross => "cross",
        JoinKind::Natural => "natural",
        JoinKind::Lateral => "lateral",
    }
}

/// `base` followed by ` AS alias` when there is an alias.
pub open spec fn with_alias(base: Seq<char>, alias: Option<String>) -> Seq<char> {
    match alias {
        Some(a) => base + " AS "@ + a@,
        None => base,
    }
}

/// A short description of a source: a plain table by its qualified name,
/// anything else by a label, each with its alias.
pub open spec fn source_text(s: SourceShape) -> Seq<char>
    decreases s,
{
    match s {
        SourceShape::Table(t) => with_alias(qualified_spec(t), t.alias),
        SourceShape::Subquery(alias) => with_alias("(subquery)"@, alias),
        SourceShape::TableFunction(name, alias) => with_alias(name@ + "(...)"@, alias),
        SourceShape::Lateral(inner) => "LATERAL "@ + source_text(*inner),
        SourceShape::Unnest(alias) => with_alias("UNNEST(...)"@, alias),
        SourceShape::Pivot(inner, alias) => with_alias(source_text(*inner) + " PIVOT(...)"@, alias),
        SourceShape::Unpivot(inner, alias) => with_alias(
            source_text(*inner) + " UNPIVOT(...)"@,
            alias,
        ),
    }
}

fn append_alias(s: &mut String, alias: &Option<String>)
    ensures
        final(s)@ == with_alias(old(s)@, *alias),
{
    match alias {
        Some(a) => {
            s.append(" AS ");
            s.append(a.as_str());
        },
        None => {},
    }
}

/// A short description of a source: a plain table by its qualified name,
/// anything else by a label, each with its alias.
pub fn describe_table_source(source: &SourceShape) -> (s: String)
    ensures
        s@ == source_text(*source),
    decreases source,
{
    match source {
        SourceShape::Table(t) => {
            let mut s = qualified_table_name(t);
            append_alias(&mut s, &t.alias);
            s
        },
        SourceShape::Subquery(alias) => {
            let mut s = String::from_str("(subquery)");
            append_alias(&mut s, alias);
            s
        },
        SourceShape::TableFunction(name, alias) => {
            let mut s = concat2(name.as_str(), "(...)");
            append_alias(&mut s, alias);
            s
        },
        SourceShape::Lateral(inner) => {
            let base = describe_table_source(inner);
            concat2("LATERAL ", base.as_str())
        },
        SourceShape::Unnest(alias) => {
            let mut s = String::from_str("UNNEST(...)");
            append_alias(&mut s, alias);
            s
        },
        SourceShape::Pivot(inner, alias) => {
            let base = describe_table_source(inner);
            let mut s = concat2(base.as_str(), " PIVOT(...)");
            append_alias(&mut s, alias);
            s
        },
        SourceShape::Unpivot(inner, alias) => {
            let base = describe_table_source(inner);
            let mut s = concat2(base.as_str(), " UNPIVOT(...)");
            append_alias(&mut s, alias);
            s
        },
    }
}

/// The view of a join report entry.
pub open spec fn join_ref_view(j: JoinRef) -> (Seq<char>, Seq<char>, Option<Seq<char>>) {
    (j.kind@, j.table@, opt_view(j.on))
}

/// What the report says of a join: its kind label, its source's
/// description, and its ON predicate.
pub open spec fn join_spec(j: JoinShape) -> (Seq<char>, Seq<char>, Option<Seq<char>>) {
    (join_kind_label(j.kind), source_text(j.source), opt_view(j.on))
}

/// The report entry of a join.
pub fn describe_join(j: &JoinShape) -> (r: JoinRef)
    ensures
        join_ref_view(r) == join_spec(*j),
{
    JoinRef {
        kind: String::from_str(join_type_label(j.kind)),
        table: describe_table_source(&j.source),
        on: clone_opt(&j.on),
    }
}

/// The top-level AND conjuncts of a predicate, left to right.
pub open spec fn conjuncts(p: PredicateShape) -> Seq<Seq<char>>
    decreases p,
{
    match p {
        PredicateShape::And(l, r) => conjuncts(*l) + conjuncts(*r),
        PredicateShape::Other(t) => seq![t@],
    }
}

/// Append the top-level AND conjuncts of `p` to `out`, left to right.
pub fn split_and_conjuncts(p: &PredicateShape, out: &mut Vec<String>)
    ensures
        strings_view(final(out)@) == strings_view(old(out)@)
            + conjuncts(*p),
    decreases p,
{
    match p {
        PredicateShape::And(l, r) => {
            let ghost before = out@;
            split_and_conjuncts(l, out);
            let ghost mid = out@;
            split_and_conjuncts(r, out);
            assert(strings_view(out@) =~= strings_view(before)
                + conjuncts(**l) + conjuncts(**r));
        },
        PredicateShape::Other(t) => {
            let ghost before = out@;
            out.push(t.clone());
            assert(strings_view(out@) =~= strings_view(before)
                + seq![t@]);
        },
    }
}

/// The text of an ORDER BY item: the expression, its direction, and its
/// NULLS placement when one was given.
pub open spec fn order_text(o: OrderShape) -> Seq<char> {
    o.sql@ + " "@ + (if o.ascending {
        "ASC"@
    } else {
        "DESC"@
    }) + match o.nulls_first {
        Some(true) => " NULLS FIRST"@,
        Some(false) => " NULLS LAST"@,
        None => Seq::empty(),
    }
}

/// The text of an ORDER BY item.
pub fn describe_order_by_item(o: &OrderShape) -> (s: String)
    ensures
        s@ == order_text(*o),
{
    let direction = if o.ascending {
        "ASC"
    } else {
        "DESC"
    };
    let mut s = concat3(o.sql.as_str(), " ", direction);
    match o.nulls_first {
        Some(true) => s.append(" NULLS FIRST"),
        Some(false) => s.append(" NULLS LAST"),
        None => {},
    }
    proof {
        reveal_strlit("");
    }
    assert(s@ =~= order_text(*o));
    s
}

/// The views of a list of table report entries.
pub open spec fn table_refs_view(v: Seq<TableRef>) -> Seq<(Seq<char>, Option<Seq<char>>)> {
    v.map_values(|t: TableRef| (t.name@, opt_view(t.alias)))
}

/// What the report says of each table: its qualified name and its alias.
pub open spec fn tables_spec(v: Seq<TableName>) -> Seq<(Seq<char>, Option<Seq<char>>)> {
    v.map_values(|t: TableName| (qualified_spec(t), opt_view(t.alias)))
}

/// The texts of a SELECT list.
pub open spec fn items_spec(v: Seq<SelectItemShape>) -> Seq<Seq<char>> {
    v.map_values(|i: SelectItemShape| item_text(i))
}

/// The views of a list of join report entries.
pub open spec fn join_refs_view(v: Seq<JoinRef>) -> Seq<(Seq<char>, Seq<char>, Option<Seq<char>>)> {
    v.map_values(|j: JoinRef| join_ref_view(j))
}

/// What the report says of each join.
pub open spec fn joins_spec(v: Seq<JoinShape>) -> Seq<(Seq<char>, Seq<char>, Option<Seq<char>>)> {
    v.map_values(|j: JoinShape| join_spec(j))
}

/// The texts of an ORDER BY list.
pub open spec fn orders_spec(v: Seq<OrderShape>) -> Seq<Seq<char>> {
    v.map_values(|o: OrderShape| order_text(o))
}

/// The filters of a WHERE clause: its top-level AND conjuncts, none
/// without one.
pub open spec fn filters_spec(w: Option<PredicateShape>) -> Seq<Seq<char>> {
    match w {
        Some(p) => conjuncts(p),
        None => Seq::empty(),
    }
}

/// `r` is the report of `shape` parsed in the dialect labelled `label`,
/// whose tree serialises to `ast`: the SELECT parts are reported only for
/// a statement that has them, and are empty otherwise.
pub open spec fn builds(r: SqlParseResult, shape: StatementShape, label: Seq<char>, ast: Seq<char>) -> bool {
    &&& r.dialect@ == label
    &&& r.statement_type@ == kind_label(shape.kind)
    &&& table_refs_view(r.tables@) == tables_spec(shape.tables@)
    &&& r.ast@ == ast
    &&& match shape.select {
        None => {
            &&& r.columns@.len() == 0
            &&& r.joins@.len() == 0
            &&& r.filters@.len() == 0
            &&& r.group_by@.len() == 0
            &&& r.order_by@.len() == 0
            &&& r.ctes@.len() == 0
        },
        Some(s) => {
            &&& strings_view(r.columns@) == items_spec(s.columns@)
            &&& join_refs_view(r.joins@) == joins_spec(s.joins@)
            &&& strings_view(r.filters@) == filters_spec(s.where_clause)
            &&& strings_view(r.group_by@) == strings_view(s.group_by@)
            &&& strings_view(r.order_by@) == orders_spec(s.order_by@)
            &&& strings_view(r.ctes@) == strings_view(s.ctes@)
        },
    }
}

fn table_refs(tables: &Vec<TableName>) -> (r: Vec<TableRef>)
    ensures
        table_refs_view(r@) == tables_spec(tables@),
{
    let mut r: Vec<TableRef> = Vec::new();
    let mut i: usize = 0;
    while i < tables.len()
        invariant
            i <= tables@.len(),
            table_refs_view(r@) == tables_spec(tables@).take(i as int),
        decreases tables.len() - i,
    {
        let t = &tables[i];
        let entry = TableRef { name: qualified_table_name(t), alias: clone_opt(&t.alias) };
        let ghost prev = r@;
        r.push(entry);
        assert(table_refs_view(r@) =~= table_refs_view(prev).push((entry.name@, opt_view(entry.alias))));
        assert(table_refs_view(r@) =~= tables_spec(tables@).take(i + 1));
        i = i + 1;
    }
    assert(tables_spec(tables@).take(i as int) =~= tables_spec(tables@));
    r
}

fn column_texts(items: &Vec<SelectItemShape>) -> (r: Vec<String>)
    ensures
        strings_view(r@) == items_spec(items@),
{
    let mut r: Vec<String> = Vec::new();
    let mut i: usize = 0;
    while i < items.len()
        invariant
            i <= items@.len(),
            strings_view(r@) == items_spec(items@).take(i as int),
        decreases items.len() - i,
    {
        let t = select_item_text(&items[i]);
        let ghost prev = r@;
        r.push(t);
        assert(strings_view(r@) =~= strings_view(prev).push(t@));
        assert(strings_view(r@) =~= items_spec(items@).take(i + 1));
        i = i + 1;
    }
    assert(items_spec(items@).take(i as int) =~= items_spec(items@));
    r
}

fn join_refs(joins: &Vec<JoinShape>) -> (r: Vec<JoinRef>)
    ensures
        join_refs_view(r@) == joins_spec(joins@),
{
    let mut r: Vec<JoinRef> = Vec::new();
    let mut i: usize = 0;
    while i < joins.len()
        invariant
            i <= joins@.len(),
            join_refs_view(r@) == joins_spec(joins@).take(i as int),
        decreases joins.len() - i,
    {
        let j = describe_join(&joins[i]);
        let ghost prev = r@;
        r.push(j);
        assert(join_refs_view(r@) =~= join_refs_view(prev).push(join_ref_view(j)));
        assert(join_refs_view(r@) =~= joins_spec(joins@).take(i + 1));
        i = i + 1;
    }
    assert(joins_spec(joins@).take(i as int) =~= joins_spec(joins@));
    r
}

fn order_texts(items: &Vec<OrderShape>) -> (r: Vec<String>)
    ensures
        strings_view(r@) == orders_spec(items@),
{
    let mut r: Vec<String> = Vec::new();
    let mut i: usize = 0;
    while i < items.len()
        invariant
            i <= items@.len(),
            strings_view(r@) == orders_spec(items@).take(i as int),
        decreases items.len() - i,
    {
        let t = describe_order_by_item(&items[i]);
        let ghost prev = r@;
        r.push(t);
        assert(strings_view(r@) =~= strings_view(prev).push(t@));
        assert(strings_view(r@) =~= orders_spec(items@).take(i + 1));
        i = i + 1;
    }
    assert(orders_spec(items@).take(i as int) =~= orders_spec(items@));
    r
}

/// Build the `sql parse` report of a parsed statement's shape, in the
/// dialect labelled `dialect_label`, with the tree's JSON text `ast`.
pub fn build(shape: &StatementShape, dialect_label: &str, ast: String) -> (r: SqlParseResult)
    ensures
        builds(r, *shape, dialect_label@, ast@),
{
    let tables = table_refs(&shape.tables);
    let (columns, joins, filters, group_by, order_by, ctes) = match &shape.select {
        None => (Vec::new(), Vec::new(), Vec::new(), Vec::new(), Vec::new(), Vec::new()),
        Some(s) => {
            let mut filters: Vec<String> = Vec::new();
            match &s.where_clause {
                Some(p) => {
                    split_and_conjuncts(p, &mut filters);
                    assert(strings_view(filters@) =~= conjuncts(*p));
                },
                None => {
                    assert(strings_view(filters@) =~= Seq::empty());
                },
            }
            (
                column_texts(&s.columns),
                join_refs(&s.joins),
                filters,
                copy_strings(&s.group_by),
                order_texts(&s.order_by),
                copy_strings(&s.ctes),
            )
        },
    };
    SqlParseResult {
        dialect: String::from_str(dialect_label),
        statement_type: String::from_str(statement_type_label(shape.kind)),
        tables,
        columns,
        joins,
        filters,
        group_by,
        order_by,
        ctes,
        ast,
    }
}

/// A table reference of `sqlglot_rust`.
#[verifier::external_type_specification]
#[verifier::external_body]
pub struct ExternalParsedTable(ParsedTable);

/// A FROM or JOIN source of `sqlglot_rust`.
#[verifier::external_type_specification]
#[verifier::external_body]
pub struct ExternalTableSource(TableSource);

/// A JOIN type of `sqlglot_rust`.
#[verifier::external_type_specification]
#[verifier::external_body]
pub struct ExternalJoinType(JoinType);

/// An expression of `sqlglot_rust`.
#[verifier::external_type_specification]
#[verifier::external_body]
pub struct ExternalExpr(Expr);

/// The kind of a `sqlglot_rust` statement, one variant to one kind (every
/// variant without a kind of its own is `Other`). The statement is opaque
/// here, so the contract claims nothing of the kind.
#[verifier::external_body]
fn statement_kind(stmt: &Statement) -> StatementKind {
    match stmt {
        Statement::Select(_) => StatementKind::Select,
        Statement::Insert(_) => StatementKind::Insert,
        Statement::Update(_) => StatementKind::Update,
        Statement::Delete(_) => StatementKind::Delete,
        Statement::CreateTable(_) => StatementKind::CreateTable,
        _ => StatementKind::Other,
    }
}

/// The parts of a `sqlglot_rust` table reference, copied field by field;
/// the reference is opaque here, so the contract claims nothing of them.
#[verifier::external_body]
fn table_name(t: &ParsedTable) -> TableName {
    TableName {
        catalog: t.catalog.clone(),
        schema: t.schema.clone(),
        name: t.name.clone(),
        alias: t.alias.clone(),
    }
}

/// Every table `sqlglot_rust::ast::find_tables` finds in a statement, in
/// its order. The statement is opaque here: nothing is claimed about which
/// tables those are.
#[verifier::external_body]
fn statement_tables(stmt: &Statement) -> Vec<TableName> {
    sqlglot_rust::ast::find_tables(stmt).into_iter().map(table_name).collect()
}

/// The items of a SELECT list, each expression rendered by `Expr::sql`;
/// empty for a statement that is not a SELECT. Nothing is claimed of them.
#[verifier::external_body]
fn select_items(stmt: &Statement) -> Vec<SelectItemShape> {
    let Statement::Select(s) = stmt else { return Vec::new() };
    s.columns.iter().map(|item| match item {
        SelectItem::Wildcard => SelectItemShape::Wildcard,
        SelectItem::QualifiedWildcard { table } => SelectItemShape::QualifiedWildcard(table.clone()),
        SelectItem::Expr { expr, alias, .. } => SelectItemShape::Expr { sql: expr.sql(), alias: alias.clone() },
    }).collect()
}

/// A `sqlglot_rust` join type, one variant to one kind (not claimed in the
/// contract: the join type is opaque here).
#[verifier::external_body]
fn join_kind(t: &JoinType) -> JoinKind {
    match t {
        JoinType::Inner => JoinKind::Inner,
        JoinType::Left => JoinKind::Left,
        JoinType::Right => JoinKind::Right,
        JoinType::Full => JoinKind::Full,
        JoinType::Cross => JoinKind::Cross,
        JoinType::Natural => JoinKind::Natural,
        JoinType::Lateral => JoinKind::Lateral,
    }
}

/// A `sqlglot_rust` table source, one variant to one shape, keeping the
/// fields the report names. Nothing is claimed of the shape.
#[verifier::external_body]
fn source_shape(source: &TableSource) -> SourceShape {
    match source {
        TableSource::Table(t) => SourceShape::Table(table_name(t)),
        TableSource::Subquery { alias, .. } => SourceShape::Subquery(alias.clone()),
        TableSource::TableFunction { name, alias, .. } => SourceShape::TableFunction(name.clone(), alias.clone()),
        TableSource::Lateral { source } => SourceShape::Lateral(Box::new(source_shape(source))),
        TableSource::Unnest { alias, .. } => SourceShape::Unnest(alias.clone()),
        TableSource::Pivot { source, alias, .. } => SourceShape::Pivot(Box::new(source_shape(source)), alias.clone()),
        TableSource::Unpivot { source, alias, .. } => SourceShape::Unpivot(Box::new(source_shape(source)), alias.clone()),
    }
}

/// The JOIN clauses of a SELECT, each ON predicate rendered by `Expr::sql`;
/// empty for a statement that is not a SELECT. Nothing is claimed of them.
#[verifier::external_body]
fn select_joins(stmt: &Statement) -> Vec<JoinShape> {
    let Statement::Select(s) = stmt else { return Vec::new() };
    s.joins.iter().map(|j| JoinShape {
        kind: join_kind(&j.join_type),
        source: source_shape(&j.table),
        on: j.on.as_ref().map(|e| e.sql()),
    }).collect()
}

/// A `sqlglot_rust` expression, its top-level ANDs kept apart and anything
/// else rendered by `Expr::sql`. Nothing is claimed of the shape.
#[verifier::external_body]
fn predicate_shape(e: &Expr) -> PredicateShape {
    match e {
        Expr::BinaryOp { left, op: BinaryOperator::And, right } => {
            PredicateShape::And(Box::new(predicate_shape(left)), Box::new(predicate_shape(right)))
        },
        other => PredicateShape::Other(other.sql()),
    }
}

/// The WHERE clause of a SELECT; `None` without one or for a statement
/// that is not a SELECT. Nothing is claimed of it.
#[verifier::external_body]
fn select_where(stmt: &Statement) -> Option<PredicateShape> {
    let Statement::Select(s) = stmt else { return None };
    s.where_clause.as_ref().map(predicate_shape)
}

/// The GROUP BY expressions of a SELECT, rendered by `Expr::sql`. Nothing
/// is claimed of them.
#[verifier::external_body]
fn select_group_by(stmt: &Statement) -> Vec<String> {
    let Statement::Select(s) = stmt else { return Vec::new() };
    s.group_by.iter().map(|e| e.sql()).collect()
}

/// The ORDER BY items of a SELECT, each expression rendered by `Expr::sql`.
/// Nothing is claimed of them.
#[verifier::external_body]
fn select_order_by(stmt: &Statement) -> Vec<OrderShape> {
    let Statement::Select(s) = stmt else { return Vec::new() };
    s.order_by.iter().map(|i| OrderShape {
        sql: i.expr.sql(),
        ascending: i.ascending,
        nulls_first: i.nulls_first,
    }).collect()
}

/// The CTE names of a SELECT, in declaration order. Nothing is claimed of
/// them.
#[verifier::external_body]
fn select_ctes(stmt: &Statement) -> Vec<String> {
    let Statement::Select(s) = stmt else { return Vec::new() };
    s.ctes.iter().map(|c| c.name.clone()).collect()
}

/// Whether a SELECT has a QUALIFY clause; `false` for a statement that is
/// not a SELECT. Nothing is claimed of it.
#[verifier::external_body]
fn select_has_qualify(stmt: &Statement) -> bool {
    let Statement::Select(s) = stmt else { return false };
    s.qualify.is_some()
}

/// The FROM source of a SELECT; `None` without one or for a statement
/// that is not a SELECT. Nothing is claimed of it.
#[verifier::external_body]
fn select_from(stmt: &Statement) -> Option<SourceShape> {
    let Statement::Select(s) = stmt else { return None };
    s.from.as_ref().map(|f| source_shape(&f.source))
}

/// The shape of a parsed statement, read out of the parser's tree.
fn statement_shape(stmt: &Statement) -> (shape: StatementShape)
    ensures
        shape.select is Some <==> shape.kind == StatementKind::Select,
{
    let kind = statement_kind(stmt);
    let select = if kind == StatementKind::Select {
        Some(
            SelectShape {
                columns: select_items(stmt),
                joins: select_joins(stmt),
                where_clause: select_where(stmt),
                group_by: select_group_by(stmt),
                order_by: select_order_by(stmt),
                ctes: select_ctes(stmt),
                qualify: select_has_qualify(stmt),
                from: select_from(stmt),
            },
        )
    } else {
        None
    };
    StatementShape { kind, tables: statement_tables(stmt), select }
}

/// The shape of the statement that `sqlglot_rust::parse` makes of `sql` in
/// `dialect`: its kind, the tables `find_tables` finds, and its SELECT
/// parts, each expression rendered by `Expr::sql`.
pub uninterp spec fn sql_statement_shape(sql: Seq<char>, dialect: SqlDialect) -> StatementShape;

/// Parses `sql` with `sqlglot_rust::parse` and reads the statement's shape.
/// Whether it parses, and the error text when not, is the parser's
/// (`sql_parse_error`); the shape is named `sql_statement_shape`, and has
/// SELECT parts exactly for a SELECT (the shape reader builds them only
/// then).
#[verifier::external_body]
pub(crate) fn parse_shape(sql: &str, dialect: SqlDialect) -> (r: Result<StatementShape, String>)
    ensures
        match r {
            Ok(s) => sql_parse_error(sql@, dialect) is None && s == sql_statement_shape(sql@, dialect) && (
            s.select is Some <==> s.kind == StatementKind::Select),
            Err(e) => sql_parse_error(sql@, dialect) == Some(e@),
        },
{
    let stmt = sqlglot_rust::parse(sql, to_sqlglot(dialect)).map_err(|e| e.to_string())?;
    Ok(statement_shape(&stmt))
}

/// What `serde_json::to_string` makes of the statement that
/// `sqlglot_rust::parse` makes of `sql` in `dialect` (through the tree's own
/// `Serialize` derive): the JSON text, or the display text of its error.
pub uninterp spec fn sql_ast_json(sql: Seq<char>, dialect: SqlDialect) -> Result<Seq<char>, Seq<char>>;

/// Parses `sql` with `sqlglot_rust::parse` and serialises the statement with
/// `serde_json::to_string`. For SQL that parses, the outcome is named
/// `sql_ast_json`; for SQL that does not, the parser's error comes back and
/// nothing is claimed of it here (`parse_shape` reports it).
#[verifier::external_body]
fn parse_ast_json(sql: &str, dialect: SqlDialect) -> (r: Result<String, String>)
    ensures
        sql_parse_error(sql@, dialect) is None ==> match r {
            Ok(a) => sql_ast_json(sql@, dialect) == Ok::<Seq<char>, Seq<char>>(a@),
            Err(e) => sql_ast_json(sql@, dialect) == Err::<Seq<char>, Seq<char>>(e@),
        },
{
    let stmt = sqlglot_rust::parse(sql, to_sqlglot(dialect)).map_err(|e| e.to_string())?;
    serde_json::to_string(&stmt).map_err(|e| e.to_string())
}

/// Parse `sql` in the named dialect and report what it reads and selects.
/// Fails when the dialect is not supported (unsupported input), when the
/// SQL does not parse in it (invalid arguments), or when its tree fails to
/// serialise (an internal error); otherwise the report is `build` of the
/// parsed statement's shape, in the dialect's canonical name, with the
/// tree's JSON text.
pub fn parse(sql: &str, dialect_name: &str) -> (r: Result<SqlParseResult, DatagovError>)
    ensures
        match dialect_named(lower(trimmed(dialect_name@))) {
            None => r is Err && r->Err_0 is UnsupportedInput && r->Err_0.spec_message()
                == "unsupported SQL dialect: '"@ + dialect_name@ + "'"@,
            Some(d) => match sql_parse_error(sql@, d) {
                Some(e) => r is Err && r->Err_0 is InvalidArgs && r->Err_0.spec_message() == "invalid SQL: "@ + e,
                None => match sql_ast_json(sql@, d) {
                    Ok(a) => r is Ok && builds(r->Ok_0, sql_statement_shape(sql@, d), canonical_name(d), a),
                    Err(e) => r is Err && r->Err_0 is Internal && r->Err_0.spec_message()
                        == "failed to serialize parsed SQL AST: "@ + e,
                },
            },
        },
{
    let (label, d) = match resolve(dialect_name) {
        Ok(x) => x,
        Err(e) => {
            return Err(e);
        },
    };
    let shape = match parse_shape(sql, d) {
        Ok(s) => s,
        Err(e) => {
            return Err(invalid_sql(e.as_str()));
        },
    };
    let ast = match parse_ast_json(sql, d) {
        Ok(a) => a,
        Err(e) => {
            let m = concat2("failed to serialize parsed SQL AST: ", e.as_str());
            return Err(DatagovError::internal(m.as_str()));
        },
    };
    Ok(build(&shape, label, ast))
}

} // verus!

verus! {

/// Each statement kind is labelled by its own keyword in lower case
/// (`create_table` for CREATE TABLE, `other` for the rest), and different
/// kinds never share a label.
pub proof fn lemma_statement_labels(k1: StatementKind, k2: StatementKind)
    ensures
        kind_label(StatementKind::Select) == "select"@,
        kind_label(StatementKind::Insert) == "insert"@,
        kind_label(StatementKind::Update) == "update"@,
        kind_label(StatementKind::Delete) == "delete"@,
        kind_label(StatementKind::CreateTable) == "create_table"@,
        kind_label(StatementKind::Other) == "other"@,
        kind_label(k1) == kind_label(k2) ==> k1 == k2,
{
    reveal_strlit("select");
    reveal_strlit("insert");
    reveal_strlit("update");
    reveal_strlit("delete");
    reveal_strlit("create_table");
    reveal_strlit("other");
    if kind_label(k1) == kind_label(k2) && k1 != k2 {
        let a = kind_label(k1);
        let b = kind_label(k2);
        assert(a.len() == b.len());
        assert(a[0] == b[0]);
        assert(a[1] == b[1]);
        assert(a[2] == b[2]);
    }
}

/// Each join kind is labelled by its own keyword in lower case, and
/// different kinds never share a label.
pub proof fn lemma_join_labels(k1: JoinKind, k2: JoinKind)
    ensures
        join_kind_label(JoinKind::Inner) == "inner"@,
        join_kind_label(JoinKind::Left) == "left"@,
        join_kind_label(JoinKind::Right) == "right"@,
        join_kind_label(JoinKind::Full) == "full"@,
        join_kind_label(JoinKind::Cross) == "cross"@,
        join_kind_label(JoinKind::Natural) == "natural"@,
        join_kind_label(JoinKind::Lateral) == "lateral"@,
        join_kind_label(k1) == join_kind_label(k2) ==> k1 == k2,
{
    reveal_strlit("inner");
    reveal_strlit("left");
    reveal_strlit("right");
    reveal_strlit("full");
    reveal_strlit("cross");
    reveal_strlit("natural");
    reveal_strlit("lateral");
    if join_kind_label(k1) == join_kind_label(k2) && k1 != k2 {
        let a = join_kind_label(k1);
        let b = join_kind_label(k2);
        assert(a.len() == b.len());
        assert(a[0] == b[0]);
        assert(a[1] == b[1]);
    }
}

} // verus!
