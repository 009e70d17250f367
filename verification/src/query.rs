//! File references inside query text: every single-quoted literal whose
//! content has a dataset-file extension names a file to register as a
//! table. This module splits the query around its quoted literals, decides
//! what each literal needs, and rewrites the text with the registered table
//! names.
use crate::error::DatagovError;
use crate::format::{extension_format, format_from_extension, format_name, Format};
use crate::path::path_extension;
use crate::text::{concat2, concat3, push_char, str_eq};
use vstd::prelude::*;

verus! {

/// The row bound applied to query output when no limit is given.
pub const DEFAULT_QUERY_LIMIT: usize = 1000;

/// `s` holds no single quote.
pub open spec fn quote_free(s: Seq<char>) -> bool {
    forall|i: int| 0 <= i < s.len() ==> s[i] != '\''
}

/// How many single quotes `s` holds.
pub open spec fn quote_count(s: Seq<char>) -> nat
    decreases s.len(),
{
    if s.len() == 0 {
        0
    } else {
        quote_count(s.drop_last()) + (if s.last() == '\'' { 1nat } else { 0nat })
    }
}

/// The text spanned by quoted segments: each gap, then the literal in quotes.
pub open spec fn join_quoted(segs: Seq<(Seq<char>, Seq<char>)>) -> Seq<char>
    decreases segs.len(),
{
    if segs.len() == 0 {
        Seq::empty()
    } else {
        join_quoted(segs.drop_last()) + segs.last().0 + seq!['\''] + segs.last().1 + seq!['\'']
    }
}

/// The views of a list of (gap, literal) string pairs.
pub open spec fn pair_views(v: Seq<(String, String)>) -> Seq<(Seq<char>, Seq<char>)> {
    v.map_values(|p: (String, String)| (p.0@, p.1@))
}

/// Splits `sql` around the matches of the regex `'([^']*)'` (via the `regex`
/// crate): one (gap, literal) pair per match, in order, then the text after
/// the last match. Leftmost-first matching of this pattern pairs up
/// consecutive quotes, so the gaps and literals are quote-free and the tail
/// holds at most one quote.
#[verifier::external_body]
fn split_quoted(sql: &str) -> (r: (Vec<(String, String)>, String))
    ensures
        join_quoted(pair_views(r.0@)) + r.1@ == sql@,
        forall|i: int|
            0 <= i < r.0@.len() ==> quote_free(#[trigger] r.0@[i].0@) && quote_free(r.0@[i].1@),
        quote_count(r.1@) <= 1,
{
    let re = regex::Regex::new(r"'([^']*)'").expect("static regex is valid");
    let mut parts = Vec::new();
    let mut last: usize = 0;
    for cap in re.captures_iter(sql) {
        let whole = cap.get(0).expect("group 0 always matches");
        parts.push((sql[last..whole.start()].to_string(), cap[1].to_string()));
        last = whole.end();
    }
    (parts, sql[last..].to_string())
}

/// What a quoted literal needs before the query can run.
#[derive(Debug, Clone)]
pub enum ReferenceAction {
    /// Not a dataset file reference: the literal stays as written.
    Keep,
    /// The first reference to a CSV or Parquet file: check it exists and
    /// register it as a table.
    Register(Format),
    /// A repeat of the literal at this earlier segment index: reuse its table.
    Reuse(usize),
    /// A reference to a dataset format queries do not support.
    Reject(DatagovError),
}

/// A query split around its quoted literals, with the action each needs.
#[derive(Debug)]
pub struct ReferencePlan {
    /// One (gap, literal) pair per quoted literal, in order.
    pub segments: Vec<(String, String)>,
    /// The text after the last quoted literal.
    pub tail: String,
    /// One action per segment.
    pub actions: Vec<ReferenceAction>,
}

/// The literal of segment `i` occurs in no earlier segment.
pub open spec fn first_of_its_kind(lits: Seq<Seq<char>>, i: int) -> bool {
    forall|j: int| 0 <= j < i ==> lits[j] != lits[i]
}

/// The literals of a list of segments.
pub open spec fn literals(segs: Seq<(Seq<char>, Seq<char>)>) -> Seq<Seq<char>> {
    segs.map_values(|p: (Seq<char>, Seq<char>)| p.1)
}

/// The message of the error for a reference to an unsupported format.
pub open spec fn unsupported_reference_message(lit: Seq<char>, f: Format) -> Seq<char> {
    "query only supports CSV and Parquet files; '"@ + lit + "' is "@ + format_name(f)
}

/// The action the literal of segment `i` needs: none for a non-dataset
/// literal; registration for the first reference to a CSV or Parquet file,
/// reuse of the first occurrence for a repeated one; rejection for any
/// other dataset format.
pub open spec fn action_fits(lits: Seq<Seq<char>>, i: int, a: ReferenceAction) -> bool {
    match extension_format(lits[i]) {
        None => a is Keep,
        Some(Format::Csv) | Some(Format::Parquet) => if first_of_its_kind(lits, i) {
            a == ReferenceAction::Register(extension_format(lits[i])->0)
        } else {
            a matches ReferenceAction::Reuse(j) && j < i && lits[j as int] == lits[i]
                && first_of_its_kind(lits, j as int)
        },
        Some(f) => a matches ReferenceAction::Reject(e) && e is UnsupportedInput
            && e.spec_message() == unsupported_reference_message(lits[i], f)
            && e.spec_remediation() == "reference a .csv or .parquet file"@,
    }
}

impl ReferencePlan {
    /// The plan is the split of `sql` with one fitting action per segment.
    pub open spec fn plans(&self, sql: Seq<char>) -> bool {
        let segs = pair_views(self.segments@);
        &&& join_quoted(segs) + self.tail@ == sql
        &&& forall|i: int| 0 <= i < segs.len() ==> quote_free(#[trigger] segs[i].0) && quote_free(segs[i].1)
        &&& quote_count(self.tail@) <= 1
        &&& self.actions@.len() == segs.len()
        &&& forall|i: int| 0 <= i < segs.len() ==> action_fits(literals(segs), i, #[trigger] self.actions@[i])
    }
}

/// Split `sql` around its quoted literals and decide what each needs.
pub fn plan_references(sql: &str) -> (r: ReferencePlan)
    ensures
        r.plans(sql@),
{
    let (segments, tail) = split_quoted(sql);
    let ghost segs = pair_views(segments@);
    let ghost lits = literals(segs);
    let mut actions: Vec<ReferenceAction> = Vec::new();
    let mut i: usize = 0;
    while i < segments.len()
        invariant
            segs == pair_views(segments@),
            lits == literals(segs),
            i <= segments.len(),
            actions@.len() == i,
            forall|k: int| 0 <= k < i ==> action_fits(lits, k, #[trigger] actions@[k]),
        decreases segments.len() - i,
    {
        let lit = segments[i].1.as_str();
        assert(lits[i as int] == lit@);
        let action = match format_from_extension(lit) {
            None => ReferenceAction::Keep,
            Some(f) => {
                if f == Format::Csv || f == Format::Parquet {
                    let mut j: usize = 0;
                    let mut found: Option<usize> = None;
                    while j < i
                        invariant_except_break
                            found is None,
                        invariant
                            segs == pair_views(segments@),
                            lits == literals(segs),
                            i < segments.len(),
                            lits[i as int] == lit@,
                            j <= i,
                            forall|k: int| 0 <= k < j ==> lits[k] != lits[i as int],
                        ensures
                            match found {
                                Some(k) => k < i && lits[k as int] == lits[i as int]
                                    && first_of_its_kind(lits, k as int),
                                None => first_of_its_kind(lits, i as int),
                            },
                        decreases i - j,
                    {
                        assert(lits[j as int] == segments@[j as int].1@);
                        if str_eq(segments[j].1.as_str(), lit) {
                            found = Some(j);
                            break;
                        }
                        j = j + 1;
                    }
                    match found {
                        Some(k) => ReferenceAction::Reuse(k),
                        None => ReferenceAction::Register(f),
                    }
                } else {
                    let mut message = concat3(
                        "query only supports CSV and Parquet files; '",
                        lit,
                        "' is ",
                    );
                    message.append(f.as_str());
                    ReferenceAction::Reject(
                        DatagovError::unsupported_input(
                            message.as_str(),
                            "reference a .csv or .parquet file",
                        ),
                    )
                }
            },
        };
        actions.push(action);
        i = i + 1;
    }
    ReferencePlan { segments, tail, actions }
}

} // verus!

verus! {

/// The rewritten query text: each gap, then either the registered table
/// name in double quotes (when segment `i` has one) or the quoted
/// literal; then the tail.
pub open spec fn rewritten(
    segs: Seq<(Seq<char>, Seq<char>)>,
    names: Seq<Option<Seq<char>>>,
) -> Seq<char>
    decreases segs.len(),
{
    if segs.len() == 0 {
        Seq::empty()
    } else {
        let i = segs.len() - 1;
        let piece = match names[i] {
            Some(n) => seq!['"'] + n + seq!['"'],
            None => seq!['\''] + segs[i].1 + seq!['\''],
        };
        rewritten(segs.drop_last(), names) + segs[i].0 + piece
    }
}

/// The views of a list of optional names.
pub open spec fn option_views(v: Seq<Option<String>>) -> Seq<Option<Seq<char>>> {
    v.map_values(|o: Option<String>| match o {
        Some(s) => Some(s@),
        None => None,
    })
}

/// Rewrite the query of `plan`, replacing the quoted literal of each segment
/// that has a table name in `table_names` with that name in double quotes.
pub fn rewrite_query(plan: &ReferencePlan, table_names: &[Option<String>]) -> (r: String)
    requires
        table_names@.len() == plan.segments@.len(),
    ensures
        r@ == rewritten(pair_views(plan.segments@), option_views(table_names@)) + plan.tail@,
{
    let ghost segs = pair_views(plan.segments@);
    let ghost names = option_views(table_names@);
    let mut out = String::new();
    let mut i: usize = 0;
    while i < plan.segments.len()
        invariant
            segs == pair_views(plan.segments@),
            names == option_views(table_names@),
            table_names@.len() == plan.segments@.len(),
            i <= plan.segments.len(),
            out@ == rewritten(segs.take(i as int), names),
        decreases plan.segments.len() - i,
    {
        assert(segs.take(i + 1).drop_last() =~= segs.take(i as int));
        out.append(plan.segments[i].0.as_str());
        match &table_names[i] {
            Some(name) => {
                push_char(&mut out, '"');
                out.append(name.as_str());
                push_char(&mut out, '"');
            },
            None => {
                push_char(&mut out, '\'');
                out.append(plan.segments[i].1.as_str());
                push_char(&mut out, '\'');
            },
        }
        i = i + 1;
        assert(out@ =~= rewritten(segs.take(i as int), names));
    }
    assert(segs.take(plan.segments.len() as int) =~= segs);
    out.append(plan.tail.as_str());
    out
}

/// With no table names, the rewrite reproduces the quoted text exactly.
pub proof fn lemma_rewrite_without_names_is_identity(
    segs: Seq<(Seq<char>, Seq<char>)>,
    names: Seq<Option<Seq<char>>>,
)
    requires
        names.len() == segs.len(),
        forall|i: int| 0 <= i < names.len() ==> names[i] is None,
    ensures
        rewritten(segs, names) == join_quoted(segs),
    decreases segs.len(),
{
    if segs.len() > 0 {
        lemma_rewrite_prefix(segs, names);
        lemma_rewrite_without_names_is_identity(segs.drop_last(), names.drop_last());
        assert(rewritten(segs, names) =~= join_quoted(segs));
    }
}

proof fn lemma_rewrite_prefix(segs: Seq<(Seq<char>, Seq<char>)>, names: Seq<Option<Seq<char>>>)
    requires
        names.len() == segs.len(),
        segs.len() > 0,
    ensures
        rewritten(segs.drop_last(), names) == rewritten(segs.drop_last(), names.drop_last()),
{
    lemma_rewrite_names_prefix(segs.drop_last(), names, names.drop_last());
}

proof fn lemma_rewrite_names_prefix(
    segs: Seq<(Seq<char>, Seq<char>)>,
    a: Seq<Option<Seq<char>>>,
    b: Seq<Option<Seq<char>>>,
)
    requires
        segs.len() <= a.len(),
        segs.len() <= b.len(),
        forall|i: int| 0 <= i < segs.len() ==> a[i] == b[i],
    ensures
        rewritten(segs, a) == rewritten(segs, b),
    decreases segs.len(),
{
    if segs.len() > 0 {
        lemma_rewrite_names_prefix(segs.drop_last(), a, b);
    }
}

/// A plan keeps query text without file references unchanged: when every
/// action is `Keep`, rewriting with no table names gives back the query.
pub proof fn lemma_query_without_references_unchanged(
    plan: ReferencePlan,
    sql: Seq<char>,
    names: Seq<Option<Seq<char>>>,
)
    requires
        plan.plans(sql),
        names.len() == plan.segments@.len(),
        forall|i: int| 0 <= i < names.len() ==> names[i] is None,
    ensures
        rewritten(pair_views(plan.segments@), names) + plan.tail@ == sql,
{
    lemma_rewrite_without_names_is_identity(pair_views(plan.segments@), names);
}

/// The error for a query that references a file that does not exist.
pub fn missing_reference_error(literal: &str) -> (e: DatagovError)
    ensures
        e is InputNotFound,
        e.spec_message() == "query references a file that does not exist: "@ + literal@,
        e.spec_remediation() == "check that "@ + literal@ + " exists and is readable"@,
{
    let message = concat2("query references a file that does not exist: ", literal);
    let remediation = concat3("check that ", literal, " exists and is readable");
    DatagovError::input_not_found(message.as_str(), remediation.as_str())
}

/// Bound a full result to its first `limit` rows, reporting the full row
/// count and whether rows were dropped.
pub fn bound_rows<T>(rows: Vec<T>, limit: usize) -> (r: (Vec<T>, usize, bool))
    ensures
        r.0@ == rows@.take(if limit < rows@.len() { limit as int } else { rows@.len() as int }),
        r.1 == rows@.len(),
        r.2 == (rows@.len() > limit),
{
    let total = rows.len();
    let truncated = total > limit;
    let mut rows = rows;
    if truncated {
        rows.truncate(limit);
    }
    (rows, total, truncated)
}

} // verus!

verus! {

/// Timing of a query run.
#[derive(Debug, Clone, Copy, PartialEq, Eq, Structural)]
pub struct QueryExecutionStats {
    pub duration_ms: u64,
}

} // verus!
