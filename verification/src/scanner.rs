//! The PII scanning core: for one column and one recognizer, find every
//! candidate match in the column's values, validate the candidates, and
//! decide whether the pair yields a finding, with its match count,
//! confidence and masked evidence.
//!
//! Scanning runs in two steps around the address validators, whose verdict
//! comes from the standard library's address parsers outside this library:
//! `column_candidates` finds the candidates of each value (every pattern's
//! matches, one candidate per distinct span, in span order), the caller
//! parses each candidate as an IPv4 and as an IPv6 address, and
//! `detect_column` decides the finding.
use crate::confidence::{compute, confidence_spec};
use crate::error::DatagovError;
use crate::format::Format;
use crate::mask::{mask_of, Masked};
use crate::recognizer::{strings_view, Recognizer};
use crate::text::{chars_of, concat2, concat3, concat4, concat5, contains, contains_exec, decimal, decimal_string, lower, to_ascii_lowercase};
use crate::validators::{validate, validate_spec, zip_prefix_checkable, zip_prefix_ok, ValidatorKind};
use vstd::prelude::*;

verus! {

/// The most masked example matches a finding keeps.
pub const MAX_SAMPLE_EVIDENCE: usize = 3;

/// A match as plain values: byte start, byte end, matched text.
pub type Span = (int, int, Seq<char>);

/// What `regex::Regex::new(pattern)` followed by `find_iter(text)` yields:
/// `None` when the pattern does not compile, otherwise each successive
/// non-overlapping match as (byte start, byte end, matched text).
pub uninterp spec fn regex_find_all(pattern: Seq<char>, text: Seq<char>) -> Option<Seq<Span>>;

/// The plain values of a list of matches.
pub open spec fn match_views(v: Seq<(usize, usize, String)>) -> Seq<Span> {
    v.map_values(|m: (usize, usize, String)| (m.0 as int, m.1 as int, m.2@))
}

/// Every match of `pattern` in `text`, by `regex::Regex::find_iter`. The
/// result is the `regex` crate's, named `regex_find_all`; nothing more is
/// claimed about it.
#[verifier::external_body]
pub(crate) fn find_matches(pattern: &str, text: &str) -> (r: Option<Vec<(usize, usize, String)>>)
    ensures
        match r {
            Some(v) => regex_find_all(pattern@, text@) == Some(match_views(v@)),
            None => regex_find_all(pattern@, text@) is None,
        },
{
    let re = match regex::Regex::new(pattern) {
        Ok(re) => re,
        Err(_) => return None,
    };
    let mut out = Vec::new();
    for m in re.find_iter(text) {
        out.push((m.start(), m.end(), m.as_str().to_string()));
    }
    Some(out)
}

/// The matches of all `patterns` in `text`, pattern by pattern; `None` when
/// a pattern does not compile.
pub open spec fn pattern_matches(patterns: Seq<Seq<char>>, text: Seq<char>) -> Option<Seq<Span>>
    decreases patterns.len(),
{
    if patterns.len() == 0 {
        Some(Seq::empty())
    } else {
        match (pattern_matches(patterns.drop_last(), text), regex_find_all(patterns.last(), text)) {
            (Some(a), Some(b)) => Some(a + b),
            _ => None,
        }
    }
}

/// Two matches cover the same bytes.
pub open spec fn same_span(a: Span, b: Span) -> bool {
    a.0 == b.0 && a.1 == b.1
}

/// `a` comes before `b` in span order: by start, then by end.
pub open spec fn span_before(a: Span, b: Span) -> bool {
    a.0 < b.0 || (a.0 == b.0 && a.1 < b.1)
}

/// Some entry of `s` covers the same bytes as `m`.
pub open spec fn has_span(s: Seq<Span>, m: Span) -> bool {
    exists|i: int| 0 <= i < s.len() && #[trigger] same_span(s[i], m)
}

/// How many entries of `s` come before `m` in span order.
pub open spec fn count_before(s: Seq<Span>, m: Span) -> nat
    decreases s.len(),
{
    if s.len() == 0 {
        0
    } else {
        count_before(s.drop_last(), m) + (if span_before(s.last(), m) {
            1nat
        } else {
            0nat
        })
    }
}

/// Add `m` to the span-ordered `s` unless its span is already there.
pub open spec fn insert_span(s: Seq<Span>, m: Span) -> Seq<Span> {
    if has_span(s, m) {
        s
    } else {
        s.insert(count_before(s, m) as int, m)
    }
}

/// The matches `ms` with one entry per distinct span (the first match with
/// that span), in span order.
pub open spec fn ordered_spans(ms: Seq<Span>) -> Seq<Span>
    decreases ms.len(),
{
    if ms.len() == 0 {
        Seq::empty()
    } else {
        insert_span(ordered_spans(ms.drop_last()), ms.last())
    }
}

/// `s` is strictly increasing in span order.
pub open spec fn span_sorted(s: Seq<Span>) -> bool {
    forall|i: int, j: int| 0 <= i < j < s.len() ==> span_before(#[trigger] s[i], #[trigger] s[j])
}

/// In a span-sorted sequence the entries before `m` are exactly a prefix.
pub proof fn lemma_count_before_prefix(s: Seq<Span>, m: Span)
    requires
        span_sorted(s),
    ensures
        count_before(s, m) <= s.len(),
        forall|i: int| 0 <= i < count_before(s, m) ==> span_before(#[trigger] s[i], m),
        forall|i: int| count_before(s, m) <= i < s.len() ==> !span_before(#[trigger] s[i], m),
    decreases s.len(),
{
    if s.len() > 0 {
        let t = s.drop_last();
        assert(span_sorted(t)) by {
            assert forall|i: int, j: int| 0 <= i < j < t.len() implies span_before(
                #[trigger] t[i],
                #[trigger] t[j],
            ) by {
                assert(t[i] == s[i] && t[j] == s[j]);
            }
        }
        lemma_count_before_prefix(t, m);
        let n = s.len() - 1;
        assert forall|i: int| 0 <= i < n implies #[trigger] t[i] == s[i] by {}
        if span_before(s[n], m) {
            if count_before(t, m) < t.len() {
                let k = count_before(t, m) as int;
                assert(!span_before(t[k], m));
                assert(span_before(s[k], s[n]));
                assert(false);
            }
            assert forall|i: int| 0 <= i < count_before(s, m) implies span_before(#[trigger] s[i], m) by {
                if i < n {
                    assert(t[i] == s[i]);
                }
            }
        } else {
            assert forall|i: int| 0 <= i < count_before(s, m) implies span_before(#[trigger] s[i], m) by {
                assert(t[i] == s[i]);
            }
            assert forall|i: int| count_before(s, m) <= i < s.len() implies !span_before(#[trigger] s[i], m) by {
                if i < n {
                    assert(t[i] == s[i]);
                }
            }
        }
    }
}

/// Inserting keeps the order strict and adds the span exactly when it was
/// missing.
pub proof fn lemma_insert_span(s: Seq<Span>, m: Span)
    requires
        span_sorted(s),
    ensures
        span_sorted(insert_span(s, m)),
        has_span(insert_span(s, m), m),
        forall|x: Span| has_span(s, x) ==> has_span(insert_span(s, m), x),
        forall|x: Span| #[trigger] has_span(insert_span(s, m), x) ==> has_span(s, x) || same_span(x, m),
{
    if !has_span(s, m) {
        lemma_count_before_prefix(s, m);
        let p = count_before(s, m) as int;
        let r = s.insert(p, m);
        assert(r[p] == m);
        assert forall|i: int, j: int| 0 <= i < j < r.len() implies span_before(#[trigger] r[i], #[trigger] r[j]) by {
            if j < p {
                assert(r[i] == s[i] && r[j] == s[j]);
            } else if j == p {
                assert(r[i] == s[i]);
            } else if i == p {
                assert(r[j] == s[j - 1]);
                assert(!span_before(s[j - 1], m));
                assert(!same_span(s[j - 1], m));
            } else if i < p {
                assert(r[i] == s[i] && r[j] == s[j - 1]);
                if j - 1 > i {
                } else {
                }
            } else {
                assert(r[i] == s[i - 1] && r[j] == s[j - 1]);
            }
        }
        assert(same_span(r[p], m));
        assert forall|x: Span| has_span(s, x) implies has_span(r, x) by {
            let i = choose|i: int| 0 <= i < s.len() && #[trigger] same_span(s[i], x);
            if i < p {
                assert(r[i] == s[i]);
                assert(same_span(r[i], x));
            } else {
                assert(r[i + 1] == s[i]);
                assert(same_span(r[i + 1], x));
            }
        }
        assert forall|x: Span| #[trigger] has_span(r, x) implies has_span(s, x) || same_span(x, m) by {
            let i = choose|i: int| 0 <= i < r.len() && #[trigger] same_span(r[i], x);
            if i < p {
                assert(r[i] == s[i]);
                assert(same_span(s[i], x));
            } else if i > p {
                assert(r[i] == s[i - 1]);
                assert(same_span(s[i - 1], x));
            }
        }
    } else {
        let i = choose|i: int| 0 <= i < s.len() && #[trigger] same_span(s[i], m);
        assert(same_span(s[i], m));
    }
}

/// The candidates of a value are in strictly increasing span order (so no
/// span occurs twice), and they cover exactly the spans of the matches.
pub proof fn lemma_ordered_spans(ms: Seq<Span>)
    ensures
        span_sorted(ordered_spans(ms)),
        forall|i: int| 0 <= i < ms.len() ==> has_span(ordered_spans(ms), #[trigger] ms[i]),
        forall|x: Span| #[trigger] has_span(ordered_spans(ms), x) ==> has_span(ms, x),
    decreases ms.len(),
{
    if ms.len() > 0 {
        let t = ms.drop_last();
        let n = ms.len() - 1;
        lemma_ordered_spans(t);
        lemma_insert_span(ordered_spans(t), ms[n]);
        assert forall|i: int| 0 <= i < ms.len() implies has_span(ordered_spans(ms), #[trigger] ms[i]) by {
            if i < n {
                assert(ms[i] == t[i]);
                assert(has_span(ordered_spans(t), t[i]));
            }
        }
        assert forall|x: Span| #[trigger] has_span(ordered_spans(ms), x) implies has_span(ms, x) by {
            if has_span(ordered_spans(t), x) {
                assert(has_span(t, x));
                let i = choose|i: int| 0 <= i < t.len() && #[trigger] same_span(t[i], x);
                assert(ms[i] == t[i]);
                assert(same_span(ms[i], x));
            } else {
                assert(same_span(ms[n], x));
            }
        }
    }
}

} // verus!

verus! {

/// Add `m` to the span-ordered candidates unless its span is already there.
fn insert_candidate(sorted: &mut Vec<(usize, usize, String)>, m: (usize, usize, String))
    ensures
        match_views(final(sorted)@) == insert_span(
            match_views(old(sorted)@),
            (m.0 as int, m.1 as int, m.2@),
        ),
{
    let ghost s = match_views(sorted@);
    let ghost mv: Span = (m.0 as int, m.1 as int, m.2@);
    let mut k: usize = 0;
    let mut before: usize = 0;
    let mut found = false;
    while k < sorted.len()
        invariant
            k <= sorted@.len(),
            s == match_views(sorted@),
            mv == (m.0 as int, m.1 as int, m.2@),
            found == has_span(s.take(k as int), mv),
            before == count_before(s.take(k as int), mv),
            before <= k,
        decreases sorted.len() - k,
    {
        let a = sorted[k].0;
        let b = sorted[k].1;
        proof {
            assert(s.take(k + 1).drop_last() == s.take(k as int));
            assert(s.take(k + 1).last() == s[k as int]);
            if has_span(s.take(k as int), mv) {
                let i = choose|i: int| 0 <= i < k && #[trigger] same_span(s.take(k as int)[i], mv);
                assert(s.take(k + 1)[i] == s.take(k as int)[i]);
            }
            if has_span(s.take(k + 1), mv) && !same_span(s[k as int], mv) {
                let i = choose|i: int| 0 <= i < k + 1 && #[trigger] same_span(s.take(k + 1)[i], mv);
                assert(s.take(k as int)[i] == s.take(k + 1)[i]);
            }
            if same_span(s[k as int], mv) {
                assert(same_span(s.take(k + 1)[k as int], mv));
            }
        }
        if a == m.0 && b == m.1 {
            found = true;
        }
        if a < m.0 || (a == m.0 && b < m.1) {
            before = before + 1;
        }
        k = k + 1;
    }
    assert(s.take(k as int) == s);
    if !found {
        sorted.insert(before, m);
        assert(match_views(sorted@) =~= s.insert(before as int, mv));
    }
}

/// The candidate matches of one value: every pattern's matches, one per
/// distinct span, in span order; `None` when a pattern does not compile.
fn ordered_candidates(value: &str, patterns: &Vec<String>) -> (r: Option<Vec<(usize, usize, String)>>)
    ensures
        match r {
            Some(v) => pattern_matches(strings_view(patterns@), value@) is Some && match_views(v@)
                == ordered_spans(pattern_matches(strings_view(patterns@), value@).unwrap()),
            None => pattern_matches(strings_view(patterns@), value@) is None,
        },
{
    let ghost ps = strings_view(patterns@);
    let mut sorted: Vec<(usize, usize, String)> = Vec::new();
    let ghost mut seen: Seq<Span> = Seq::empty();
    let mut i: usize = 0;
    while i < patterns.len()
        invariant
            i <= patterns@.len(),
            ps == strings_view(patterns@),
            pattern_matches(ps.take(i as int), value@) == Some(seen),
            match_views(sorted@) == ordered_spans(seen),
        decreases patterns.len() - i,
    {
        assert(ps.take(i + 1).drop_last() == ps.take(i as int));
        assert(ps.take(i + 1).last() == patterns@[i as int]@);
        let found = find_matches(patterns[i].as_str(), value);
        let mut ms = match found {
            Some(ms) => ms,
            None => {
                assert(pattern_matches(ps.take(i + 1), value@) is None);
                let mut j: usize = i + 1;
                while j < patterns.len()
                    invariant
                        i + 1 <= j <= patterns@.len(),
                        ps == strings_view(patterns@),
                        pattern_matches(ps.take(j as int), value@) is None,
                    decreases patterns.len() - j,
                {
                    assert(ps.take(j + 1).drop_last() == ps.take(j as int));
                    j = j + 1;
                }
                assert(ps.take(patterns@.len() as int) == ps);
                return None;
            },
        };
        let ghost mv = match_views(ms@);
        let ghost base = seen;
        let mut j: usize = 0;
        let total = ms.len();
        assert(mv.skip(0) == mv);
        assert(mv.len() == total);
        while ms.len() > 0
            invariant
                j <= mv.len(),
                mv.len() <= usize::MAX,
                match_views(ms@) == mv.skip(j as int),
                seen == base + mv.take(j as int),
                match_views(sorted@) == ordered_spans(seen),
            decreases ms.len(),
        {
            let ghost before = ms@;
            assert(match_views(before).len() == before.len());
            assert(j < mv.len());
            assert(mv.skip(j as int)[0] == mv[j as int]);
            let m = ms.remove(0);
            proof {
                assert(match_views(before)[0] == mv[j as int]);
                assert(match_views(ms@) =~= match_views(before).skip(1));
                assert(mv.skip(j as int).skip(1) =~= mv.skip(j + 1));
                assert((base + mv.take(j + 1)).drop_last() == base + mv.take(j as int));
                assert((base + mv.take(j + 1)).last() == mv[j as int]);
                seen = base + mv.take(j + 1);
            }
            insert_candidate(&mut sorted, m);
            j = j + 1;
        }
        proof {
            assert(mv.take(j as int) == mv);
        }
        i = i + 1;
    }
    assert(ps.take(i as int) == ps);
    Some(sorted)
}

} // verus!

verus! {

/// The matched texts of a list of matches.
pub open spec fn span_texts(s: Seq<Span>) -> Seq<Seq<char>> {
    s.map_values(|m: Span| m.2)
}

/// The candidate texts of one value, in span order.
pub open spec fn value_candidates(patterns: Seq<Seq<char>>, value: Seq<char>) -> Option<Seq<Seq<char>>> {
    match pattern_matches(patterns, value) {
        Some(ms) => Some(span_texts(ordered_spans(ms))),
        None => None,
    }
}

/// The candidate texts of every value of a column; `None` when a pattern
/// does not compile.
pub open spec fn column_candidates_spec(patterns: Seq<Seq<char>>, values: Seq<Seq<char>>) -> Option<
    Seq<Seq<Seq<char>>>,
>
    decreases values.len(),
{
    if values.len() == 0 {
        Some(Seq::empty())
    } else {
        match (
            column_candidates_spec(patterns, values.drop_last()),
            value_candidates(patterns, values.last()),
        ) {
            (Some(a), Some(b)) => Some(a.push(b)),
            _ => None,
        }
    }
}

/// The views of a list of lists of strings.
pub open spec fn rows_view(v: Seq<Vec<String>>) -> Seq<Seq<Seq<char>>> {
    v.map_values(|r: Vec<String>| strings_view(r@))
}

/// The candidate texts of each of `values` for `recognizer`, one list per
/// value; `None` when one of the recognizer's patterns does not compile.
pub fn column_candidates(values: &Vec<String>, recognizer: &Recognizer) -> (r: Option<Vec<Vec<String>>>)
    ensures
        match r {
            Some(rows) => column_candidates_spec(strings_view(recognizer.patterns@), strings_view(values@))
                == Some(rows_view(rows@)),
            None => column_candidates_spec(strings_view(recognizer.patterns@), strings_view(values@)) is None,
        },
{
    let ghost ps = strings_view(recognizer.patterns@);
    let ghost vs = strings_view(values@);
    let mut rows: Vec<Vec<String>> = Vec::new();
    let mut i: usize = 0;
    while i < values.len()
        invariant
            i <= values@.len(),
            ps == strings_view(recognizer.patterns@),
            vs == strings_view(values@),
            column_candidates_spec(ps, vs.take(i as int)) == Some(rows_view(rows@)),
        decreases values.len() - i,
    {
        assert(vs.take(i + 1).drop_last() == vs.take(i as int));
        assert(vs.take(i + 1).last() == values@[i as int]@);
        match ordered_candidates(values[i].as_str(), &recognizer.patterns) {
            Some(ms) => {
                let mut texts: Vec<String> = Vec::new();
                let mut k: usize = 0;
                while k < ms.len()
                    invariant
                        k <= ms@.len(),
                        strings_view(texts@) == span_texts(match_views(ms@)).take(k as int),
                    decreases ms.len() - k,
                {
                    let t = String::from_str(ms[k].2.as_str());
                    assert(match_views(ms@)[k as int].2 == ms@[k as int].2@);
                    assert(t@ == span_texts(match_views(ms@))[k as int]);
                    let ghost prev = texts@;
                    texts.push(t);
                    assert(strings_view(texts@) =~= strings_view(prev).push(t@));
                    assert(strings_view(texts@) =~= span_texts(match_views(ms@)).take(k + 1));
                    k = k + 1;
                }
                assert(span_texts(match_views(ms@)).take(k as int) =~= span_texts(match_views(ms@)));
                let ghost prev = rows@;
                rows.push(texts);
                assert(rows_view(rows@) =~= rows_view(prev).push(strings_view(rows@.last()@)));
            },
            None => {
                let mut j: usize = i + 1;
                while j < values.len()
                    invariant
                        i + 1 <= j <= values@.len(),
                        vs == strings_view(values@),
                        column_candidates_spec(ps, vs.take(j as int)) is None,
                    decreases values.len() - j,
                {
                    assert(vs.take(j + 1).drop_last() == vs.take(j as int));
                    j = j + 1;
                }
                assert(vs.take(values@.len() as int) == vs);
                return None;
            },
        }
        i = i + 1;
    }
    assert(vs.take(i as int) == vs);
    Some(rows)
}

} // verus!

verus! {

/// The address verdict a validator reads: the IPv4 parse for `Ipv4`, the
/// IPv6 parse otherwise (ignored by the other validators).
pub open spec fn address_flag(k: ValidatorKind, flags: (bool, bool)) -> bool {
    if k == ValidatorKind::Ipv4 {
        flags.0
    } else {
        flags.1
    }
}

/// A candidate passes every validator.
pub open spec fn candidate_valid(vs: Seq<ValidatorKind>, c: Seq<char>, flags: (bool, bool)) -> bool {
    forall|i: int| 0 <= i < vs.len() ==> #[trigger] validate_spec(vs[i], c, address_flag(vs[i], flags))
}

/// The candidates of one value that pass validation, in order.
pub open spec fn row_valid(vs: Seq<ValidatorKind>, cands: Seq<Seq<char>>, flags: Seq<(bool, bool)>) -> Seq<
    Seq<char>,
>
    decreases cands.len(),
{
    if cands.len() == 0 {
        Seq::empty()
    } else {
        row_valid(vs, cands.drop_last(), flags.take(cands.len() - 1)) + (if candidate_valid(
            vs,
            cands.last(),
            flags[cands.len() - 1],
        ) {
            seq![cands.last()]
        } else {
            Seq::empty()
        })
    }
}

/// Every validated candidate of the column, value by value.
pub open spec fn valid_candidates(
    vs: Seq<ValidatorKind>,
    rows: Seq<Seq<Seq<char>>>,
    flags: Seq<Seq<(bool, bool)>>,
) -> Seq<Seq<char>>
    decreases rows.len(),
{
    if rows.len() == 0 {
        Seq::empty()
    } else {
        valid_candidates(vs, rows.drop_last(), flags.take(rows.len() - 1)) + row_valid(
            vs,
            rows.last(),
            flags[rows.len() - 1],
        )
    }
}

/// How many values have at least one validated candidate.
pub open spec fn rows_with_valid(
    vs: Seq<ValidatorKind>,
    rows: Seq<Seq<Seq<char>>>,
    flags: Seq<Seq<(bool, bool)>>,
) -> nat
    decreases rows.len(),
{
    if rows.len() == 0 {
        0
    } else {
        rows_with_valid(vs, rows.drop_last(), flags.take(rows.len() - 1)) + (if row_valid(
            vs,
            rows.last(),
            flags[rows.len() - 1],
        ).len() > 0 {
            1nat
        } else {
            0nat
        })
    }
}

/// How many candidates the column has in all.
pub open spec fn candidate_total(rows: Seq<Seq<Seq<char>>>) -> nat
    decreases rows.len(),
{
    if rows.len() == 0 {
        0
    } else {
        candidate_total(rows.drop_last()) + rows.last().len()
    }
}

/// The first context term that occurs, case-insensitively, in the column
/// name.
pub open spec fn first_context_match(column: Seq<char>, terms: Seq<Seq<char>>) -> Option<Seq<char>>
    decreases terms.len(),
{
    if terms.len() == 0 {
        None
    } else if contains(lower(column), lower(terms[0])) {
        Some(terms[0])
    } else {
        first_context_match(column, terms.skip(1))
    }
}

/// The validator bonus applies: the recognizer has a validator, and every
/// candidate of the column (there is at least one) passed.
pub open spec fn validator_bonus(
    vs: Seq<ValidatorKind>,
    rows: Seq<Seq<Seq<char>>>,
    flags: Seq<Seq<(bool, bool)>>,
) -> bool {
    vs.len() > 0 && candidate_total(rows) > 0 && valid_candidates(vs, rows, flags).len()
        == candidate_total(rows)
}

/// The masked evidence: the first few validated candidates, masked.
pub open spec fn evidence_of(valid: Seq<Seq<char>>) -> Seq<Seq<char>> {
    valid.take(
        if valid.len() < MAX_SAMPLE_EVIDENCE {
            valid.len() as int
        } else {
            MAX_SAMPLE_EVIDENCE as int
        },
    ).map_values(|c: Seq<char>| mask_of(c))
}

/// One finding: a recognizer's validated matches in a column.
#[derive(Debug)]
pub struct PiiFinding {
    pub column: String,
    pub entity: String,
    /// The recognizer id.
    pub recognizer: String,
    /// Final confidence, in millionths.
    pub confidence: i64,
    /// How many values have at least one validated match.
    pub match_count: u64,
    /// How many (non-null) values were scanned.
    pub non_null_count: u64,
    /// Masked examples of validated matches.
    pub sample_evidence: Vec<String>,
    /// The context term the column name matched, if any.
    pub context_term: Option<String>,
    /// Whether the recognizer declares validators.
    pub has_validator: bool,
}

/// The candidate lists and their address verdicts have the same shape.
pub open spec fn same_shape(rows: Seq<Seq<Seq<char>>>, flags: Seq<Seq<(bool, bool)>>) -> bool {
    rows.len() == flags.len() && forall|i: int| 0 <= i < rows.len() ==> #[trigger] rows[i].len()
        == flags[i].len()
}

/// Checking `c` against `vs` reaches a ZIP validator: one stands after
/// validators that `c` all passes (the checks stop at the first failure).
pub open spec fn zip_reached(vs: Seq<ValidatorKind>, c: Seq<char>, flags: (bool, bool)) -> bool {
    exists|i: int|
        0 <= i < vs.len() && #[trigger] vs[i] == ValidatorKind::UsZip && forall|j: int|
            0 <= j < i ==> #[trigger] validate_spec(vs[j], c, address_flag(vs[j], flags))
}

/// Every candidate whose checks reach the ZIP validator can be checked by
/// it (its five-byte prefix ends on a character boundary).
pub open spec fn zip_checkable(
    vs: Seq<ValidatorKind>,
    rows: Seq<Seq<Seq<char>>>,
    flags: Seq<Seq<(bool, bool)>>,
) -> bool {
    forall|i: int, j: int|
        0 <= i < rows.len() && 0 <= j < rows[i].len() && zip_reached(vs, #[trigger] rows[i][j], flags[i][j])
            ==> zip_prefix_ok(rows[i][j])
}

/// Whether checking `candidate` against `vs` would reach the ZIP validator
/// with a candidate it cannot check: the case `detect_column` leaves out.
pub fn zip_check_blocked(vs: &Vec<ValidatorKind>, candidate: &str, flags: (bool, bool)) -> (r: bool)
    ensures
        r == (zip_reached(vs@, candidate@, flags) && !zip_prefix_ok(candidate@)),
{
    let mut i: usize = 0;
    while i < vs.len()
        invariant
            i <= vs@.len(),
            forall|j: int| 0 <= j < i ==> vs@[j] != ValidatorKind::UsZip,
            forall|j: int| 0 <= j < i ==> #[trigger] validate_spec(vs@[j], candidate@, address_flag(vs@[j], flags)),
        decreases vs.len() - i,
    {
        let k = vs[i];
        if k == ValidatorKind::UsZip {
            assert(vs@[i as int] == ValidatorKind::UsZip);
            assert(zip_reached(vs@, candidate@, flags));
            return !zip_prefix_checkable(candidate);
        }
        let flag = if k == ValidatorKind::Ipv4 {
            flags.0
        } else {
            flags.1
        };
        if !validate(k, candidate, flag) {
            assert(!validate_spec(vs@[i as int], candidate@, address_flag(vs@[i as int], flags)));
            assert(!zip_reached(vs@, candidate@, flags)) by {
                if zip_reached(vs@, candidate@, flags) {
                    let w = choose|w: int|
                        0 <= w < vs@.len() && #[trigger] vs@[w] == ValidatorKind::UsZip && forall|j: int|
                            0 <= j < w ==> #[trigger] validate_spec(vs@[j], candidate@, address_flag(vs@[j], flags));
                    if w < i {
                        assert(vs@[w] != ValidatorKind::UsZip);
                    } else {
                        assert(w != i);
                        assert(validate_spec(vs@[i as int], candidate@, address_flag(vs@[i as int], flags)));
                    }
                }
            }
            return false;
        }
        i = i + 1;
    }
    assert(!zip_reached(vs@, candidate@, flags)) by {
        if zip_reached(vs@, candidate@, flags) {
            let w = choose|w: int|
                0 <= w < vs@.len() && #[trigger] vs@[w] == ValidatorKind::UsZip && forall|j: int|
                    0 <= j < w ==> #[trigger] validate_spec(vs@[j], candidate@, address_flag(vs@[j], flags));
            assert(vs@[w] != ValidatorKind::UsZip);
        }
    }
    false
}

/// Whether `candidate` passes every validator of `vs`.
fn candidate_passes(vs: &Vec<ValidatorKind>, candidate: &str, flags: (bool, bool)) -> (r: bool)
    requires
        zip_reached(vs@, candidate@, flags) ==> zip_prefix_ok(candidate@),
    ensures
        r == candidate_valid(vs@, candidate@, flags),
{
    let mut i: usize = 0;
    while i < vs.len()
        invariant
            i <= vs@.len(),
            zip_reached(vs@, candidate@, flags) ==> zip_prefix_ok(candidate@),
            forall|j: int| 0 <= j < i ==> #[trigger] validate_spec(vs@[j], candidate@, address_flag(vs@[j], flags)),
        decreases vs.len() - i,
    {
        let k = vs[i];
        let flag = if k == ValidatorKind::Ipv4 {
            flags.0
        } else {
            flags.1
        };
        if k == ValidatorKind::UsZip {
            assert(vs@[i as int] == ValidatorKind::UsZip);
            assert(zip_reached(vs@, candidate@, flags));
        }
        if !validate(k, candidate, flag) {
            assert(flag == address_flag(vs@[i as int], flags));
            assert(!validate_spec(vs@[i as int], candidate@, address_flag(vs@[i as int], flags)));
            return false;
        }
        i = i + 1;
    }
    true
}

/// The first context term of `terms` found in the column name.
fn context_match(column: &str, terms: &Vec<String>) -> (r: Option<String>)
    ensures
        match r {
            Some(t) => first_context_match(column@, strings_view(terms@)) == Some(t@),
            None => first_context_match(column@, strings_view(terms@)) is None,
        },
{
    let lc = to_ascii_lowercase(column);
    let lcs = chars_of(lc.as_str());
    let ghost ts = strings_view(terms@);
    let mut i: usize = 0;
    assert(ts.skip(0) =~= ts);
    while i < terms.len()
        invariant
            i <= terms@.len(),
            ts == strings_view(terms@),
            lcs@ == lower(column@),
            first_context_match(column@, ts) == first_context_match(column@, ts.skip(i as int)),
        decreases terms.len() - i,
    {
        assert(ts.skip(i as int)[0] == terms@[i as int]@);
        assert(ts.skip(i as int).skip(1) =~= ts.skip(i + 1));
        let lt = to_ascii_lowercase(terms[i].as_str());
        let ltc = chars_of(lt.as_str());
        if contains_exec(&lcs, &ltc) {
            return Some(String::from_str(terms[i].as_str()));
        }
        i = i + 1;
    }
    None
}

} // verus!

verus! {

/// The views of a list of lists of address verdicts.
pub open spec fn flags_view(v: Seq<Vec<(bool, bool)>>) -> Seq<Seq<(bool, bool)>> {
    v.map_values(|r: Vec<(bool, bool)>| r@)
}

proof fn lemma_evidence_push(v: Seq<Seq<char>>, x: Seq<char>)
    ensures
        evidence_of(v.push(x)) == (if v.len() < MAX_SAMPLE_EVIDENCE {
            evidence_of(v).push(mask_of(x))
        } else {
            evidence_of(v)
        }),
{
    if v.len() < MAX_SAMPLE_EVIDENCE {
        assert(evidence_of(v.push(x)) =~= evidence_of(v).push(mask_of(x)));
    } else {
        assert(evidence_of(v.push(x)) =~= evidence_of(v));
    }
}

/// Decide the finding of one recognizer in one column. `rows` holds the
/// candidate texts of each scanned value (see `column_candidates`) and
/// `flags` whether each candidate parses as an IPv4 and as an IPv6 address.
/// There is a finding exactly when some value has a validated candidate.
pub fn detect_column(
    column: &str,
    rows: &Vec<Vec<String>>,
    flags: &Vec<Vec<(bool, bool)>>,
    recognizer: &Recognizer,
) -> (r: Option<PiiFinding>)
    requires
        same_shape(rows_view(rows@), flags_view(flags@)),
        zip_checkable(recognizer.validators@, rows_view(rows@), flags_view(flags@)),
    ensures
        match r {
            None => rows_with_valid(recognizer.validators@, rows_view(rows@), flags_view(flags@)) == 0,
            Some(f) => {
                &&& rows_with_valid(recognizer.validators@, rows_view(rows@), flags_view(flags@)) > 0
                &&& f.column@ == column@
                &&& f.entity@ == recognizer.entity@
                &&& f.recognizer@ == recognizer.id@
                &&& f.match_count == rows_with_valid(
                    recognizer.validators@,
                    rows_view(rows@),
                    flags_view(flags@),
                )
                &&& f.non_null_count == rows@.len()
                &&& f.confidence == confidence_spec(
                    recognizer.base_confidence as int,
                    validator_bonus(recognizer.validators@, rows_view(rows@), flags_view(flags@)),
                    first_context_match(column@, strings_view(recognizer.context@)) is Some,
                )
                &&& strings_view(f.sample_evidence@) == evidence_of(
                    valid_candidates(recognizer.validators@, rows_view(rows@), flags_view(flags@)),
                )
                &&& match f.context_term {
                    Some(t) => first_context_match(column@, strings_view(recognizer.context@)) == Some(
                        t@,
                    ),
                    None => first_context_match(column@, strings_view(recognizer.context@)) is None,
                }
                &&& f.has_validator == (recognizer.validators@.len() > 0)
            },
        },
{
    let ghost vs = recognizer.validators@;
    let ghost rv = rows_view(rows@);
    let ghost fv = flags_view(flags@);
    let mut total: u128 = 0;
    let mut valid_count: u128 = 0;
    let mut rows_valid: u64 = 0;
    let mut evidence: Vec<String> = Vec::new();
    let mut r: usize = 0;
    while r < rows.len()
        invariant
            r <= rows@.len(),
            vs == recognizer.validators@,
            rv == rows_view(rows@),
            fv == flags_view(flags@),
            same_shape(rv, fv),
            zip_checkable(vs, rv, fv),
            total == candidate_total(rv.take(r as int)),
            total <= r * usize::MAX,
            valid_count == valid_candidates(vs, rv.take(r as int), fv.take(r as int)).len(),
            valid_count <= total,
            rows_valid == rows_with_valid(vs, rv.take(r as int), fv.take(r as int)),
            rows_valid <= r,
            strings_view(evidence@) == evidence_of(valid_candidates(vs, rv.take(r as int), fv.take(r as int))),
        decreases rows.len() - r,
    {
        let row = &rows[r];
        let row_flags = &flags[r];
        let ghost cands = rv[r as int];
        let ghost fl = fv[r as int];
        let ghost before = valid_candidates(vs, rv.take(r as int), fv.take(r as int));
        assert(cands == strings_view(row@));
        assert(fl == row_flags@);
        assert(cands.len() == fl.len());
        let mut c: usize = 0;
        let mut row_has = false;
        let mut row_count: u128 = 0;
        while c < row.len()
            invariant
                c <= row@.len(),
                cands == strings_view(row@),
                fl == row_flags@,
                cands.len() == fl.len(),
                vs == recognizer.validators@,
                forall|j: int|
                    0 <= j < cands.len() && zip_reached(vs, #[trigger] cands[j], fl[j]) ==> zip_prefix_ok(cands[j]),
                row_count == row_valid(vs, cands.take(c as int), fl.take(c as int)).len(),
                row_count <= c,
                row_has == (row_count > 0),
                strings_view(evidence@) == evidence_of(
                    before + row_valid(vs, cands.take(c as int), fl.take(c as int)),
                ),
            decreases row.len() - c,
        {
            let cand = row[c].as_str();
            assert(cand@ == cands[c as int]);
            let ok = candidate_passes(&recognizer.validators, cand, row_flags[c]);
            let ghost prior = before + row_valid(vs, cands.take(c as int), fl.take(c as int));
            proof {
                assert(cands.take(c + 1).drop_last() == cands.take(c as int));
                assert(fl.take(c + 1).take(c as int) == fl.take(c as int));
                assert(cands.take(c + 1).last() == cands[c as int]);
                assert(fl.take(c + 1)[c as int] == fl[c as int]);
            }
            if ok {
                proof {
                    lemma_evidence_push(prior, cands[c as int]);
                    assert(before + row_valid(vs, cands.take(c + 1), fl.take(c + 1)) =~= prior.push(
                        cands[c as int],
                    ));
                }
                if evidence.len() < MAX_SAMPLE_EVIDENCE {
                    let masked = Masked::new(cand).to_string();
                    evidence.push(masked);
                } else {
                    assert(prior.len() >= MAX_SAMPLE_EVIDENCE) by {
                        assert(strings_view(evidence@).len() == evidence@.len());
                    }
                }
                row_count = row_count + 1;
                row_has = true;
            } else {
                assert(before + row_valid(vs, cands.take(c + 1), fl.take(c + 1)) =~= prior);
            }
            c = c + 1;
        }
        proof {
            assert(cands.take(c as int) == cands);
            assert(fl.take(c as int) == fl);
            assert(rv.take(r + 1).drop_last() == rv.take(r as int));
            assert(fv.take(r + 1).take(r as int) == fv.take(r as int));
            assert(rv.take(r + 1).last() == cands);
            assert(fv.take(r + 1)[r as int] == fl);
        }
        proof {
            let n = r as int;
            assert((n + 1) * usize::MAX == n * usize::MAX + usize::MAX) by (nonlinear_arith);
            assert((n + 1) * usize::MAX <= usize::MAX * usize::MAX) by (nonlinear_arith)
                requires
                    n + 1 <= usize::MAX,
            ;
            assert(usize::MAX * usize::MAX < u128::MAX) by (nonlinear_arith)
                requires
                    usize::MAX < 0x1_0000_0000_0000_0000,
            ;
        }
        total = total + (row.len() as u128);
        valid_count = valid_count + row_count;
        if row_has {
            rows_valid = rows_valid + 1;
        }
        r = r + 1;
    }
    proof {
        assert(rv.take(r as int) == rv);
        assert(fv.take(r as int) == fv);
    }
    if rows_valid == 0 {
        return None;
    }
    let has_validator = recognizer.validators.len() > 0;
    let validator_ok = has_validator && total > 0 && valid_count == total;
    let context_term = context_match(column, &recognizer.context);
    let confidence = compute(recognizer.base_confidence, validator_ok, context_term.is_some());
    Some(
        PiiFinding {
            column: String::from_str(column),
            entity: String::from_str(recognizer.entity.as_str()),
            recognizer: String::from_str(recognizer.id.as_str()),
            confidence,
            match_count: rows_valid,
            non_null_count: rows.len() as u64,
            sample_evidence: evidence,
            context_term,
            has_validator,
        },
    )
}

} // verus!

verus! {

/// The validated candidates of a value never outnumber its candidates,
/// and all of them pass exactly when the counts agree.
pub proof fn lemma_row_valid_len(vs: Seq<ValidatorKind>, cands: Seq<Seq<char>>, fl: Seq<(bool, bool)>)
    requires
        cands.len() == fl.len(),
    ensures
        row_valid(vs, cands, fl).len() <= cands.len(),
        row_valid(vs, cands, fl).len() == cands.len() <==> forall|j: int|
            0 <= j < cands.len() ==> #[trigger] candidate_valid(vs, cands[j], fl[j]),
    decreases cands.len(),
{
    if cands.len() > 0 {
        let n = cands.len() - 1;
        let c2 = cands.drop_last();
        let f2 = fl.take(n);
        lemma_row_valid_len(vs, c2, f2);
        if row_valid(vs, cands, fl).len() == cands.len() {
            assert forall|j: int| 0 <= j < cands.len() implies #[trigger] candidate_valid(vs, cands[j], fl[j]) by {
                if j < n {
                    assert(c2[j] == cands[j] && f2[j] == fl[j]);
                    assert(candidate_valid(vs, c2[j], f2[j]));
                }
            }
        }
        if forall|j: int| 0 <= j < cands.len() ==> #[trigger] candidate_valid(vs, cands[j], fl[j]) {
            assert forall|j: int| 0 <= j < c2.len() implies #[trigger] candidate_valid(vs, c2[j], f2[j]) by {
                assert(c2[j] == cands[j] && f2[j] == fl[j]);
                assert(candidate_valid(vs, cands[j], fl[j]));
            }
            assert(candidate_valid(vs, cands[n], fl[n]));
        }
    }
}

/// No partial credit: the validator bonus is earned only when every
/// candidate of every value passed all of the recognizer's validators.
pub proof fn lemma_validator_bonus_needs_every_candidate(
    vs: Seq<ValidatorKind>,
    rows: Seq<Seq<Seq<char>>>,
    flags: Seq<Seq<(bool, bool)>>,
)
    requires
        same_shape(rows, flags),
    ensures
        valid_candidates(vs, rows, flags).len() <= candidate_total(rows),
        validator_bonus(vs, rows, flags) ==> forall|i: int, j: int|
            0 <= i < rows.len() && 0 <= j < rows[i].len() ==> #[trigger] candidate_valid(
                vs,
                rows[i][j],
                flags[i][j],
            ),
    decreases rows.len(),
{
    if rows.len() > 0 {
        let n = rows.len() - 1;
        let r2 = rows.drop_last();
        let f2 = flags.take(n);
        assert(same_shape(r2, f2)) by {
            assert forall|i: int| 0 <= i < r2.len() implies #[trigger] r2[i].len() == f2[i].len() by {
                assert(r2[i] == rows[i] && f2[i] == flags[i]);
            }
        }
        lemma_validator_bonus_needs_every_candidate(vs, r2, f2);
        lemma_row_valid_len(vs, rows[n], flags[n]);
        if validator_bonus(vs, rows, flags) {
            assert(valid_candidates(vs, r2, f2).len() == candidate_total(r2));
            assert(row_valid(vs, rows[n], flags[n]).len() == rows[n].len());
            if candidate_total(r2) > 0 {
                assert(validator_bonus(vs, r2, f2));
            }
            assert forall|i: int, j: int|
                0 <= i < rows.len() && 0 <= j < rows[i].len() implies #[trigger] candidate_valid(
                vs,
                rows[i][j],
                flags[i][j],
            ) by {
                if i < n {
                    assert(r2[i] == rows[i] && f2[i] == flags[i]);
                    if candidate_total(r2) == 0 {
                        lemma_total_zero(r2, i);
                    }
                }
            }
        }
    }
}

proof fn lemma_total_zero(rows: Seq<Seq<Seq<char>>>, i: int)
    requires
        candidate_total(rows) == 0,
        0 <= i < rows.len(),
    ensures
        rows[i].len() == 0,
    decreases rows.len(),
{
    if i < rows.len() - 1 {
        lemma_total_zero(rows.drop_last(), i);
    }
}

/// The evidence holds at most three entries, each the masked form of a
/// validated candidate, in order.
pub proof fn lemma_evidence_is_masked(valid: Seq<Seq<char>>)
    ensures
        evidence_of(valid).len() <= MAX_SAMPLE_EVIDENCE,
        forall|i: int| 0 <= i < evidence_of(valid).len() ==> #[trigger] evidence_of(valid)[i] == mask_of(valid[i]),
{
}

/// The explanation of a finding: the matched context term (if any), the
/// count of matching values out of those scanned, the percentage (as
/// rendered by the caller), the entity, and whether validation was part of
/// the match.
pub open spec fn reason_spec(
    context_term: Option<Seq<char>>,
    match_count: nat,
    non_null_count: nat,
    percentage: Seq<char>,
    entity: Seq<char>,
    has_validator: bool,
) -> Seq<char> {
    (match context_term {
        Some(t) => "column name matches context term '"@ + t + "'; "@,
        None => Seq::empty(),
    }) + decimal(match_count) + "/"@ + decimal(non_null_count) + " values ("@ + percentage
        + "%) matched "@ + entity + (if has_validator {
        " and passed validation"@
    } else {
        Seq::empty()
    })
}

/// The explanation of `finding`, given its match percentage already
/// rendered with one decimal place.
pub fn finding_reason(finding: &PiiFinding, percentage: &str) -> (s: String)
    ensures
        s@ == reason_spec(
            match finding.context_term {
                Some(t) => Some(t@),
                None => None,
            },
            finding.match_count as nat,
            finding.non_null_count as nat,
            percentage@,
            finding.entity@,
            finding.has_validator,
        ),
{
    let mut s = String::new();
    match &finding.context_term {
        Some(t) => {
            s.append("column name matches context term '");
            s.append(t.as_str());
            s.append("'; ");
        },
        None => {},
    }
    let matched = decimal_string(finding.match_count);
    let scanned = decimal_string(finding.non_null_count);
    s.append(matched.as_str());
    s.append("/");
    s.append(scanned.as_str());
    s.append(" values (");
    s.append(percentage);
    s.append("%) matched ");
    s.append(finding.entity.as_str());
    if finding.has_validator {
        s.append(" and passed validation");
    }
    proof {
        reveal_strlit("");
    }
    assert(s@ =~= reason_spec(
        match finding.context_term {
            Some(t) => Some(t@),
            None => None,
        },
        finding.match_count as nat,
        finding.non_null_count as nat,
        percentage@,
        finding.entity@,
        finding.has_validator,
    ));
    s
}

/// Whether some finding reaches the failure threshold (in millionths).
pub fn threshold_breached(findings: &Vec<PiiFinding>, threshold: i64) -> (r: bool)
    ensures
        r == exists|i: int| 0 <= i < findings@.len() && #[trigger] findings@[i].confidence >= threshold,
{
    let mut i: usize = 0;
    while i < findings.len()
        invariant
            i <= findings@.len(),
            forall|j: int| 0 <= j < i ==> #[trigger] findings@[j].confidence < threshold,
        decreases findings.len() - i,
    {
        if findings[i].confidence >= threshold {
            return true;
        }
        i = i + 1;
    }
    false
}

/// The scan target must be a real file: standard input cannot be
/// registered as a table.
pub fn check_scan_target(path: &str) -> (r: Result<(), DatagovError>)
    ensures
        path@ == "-"@ <==> r is Err,
        r matches Err(e) ==> e is InvalidArgs && e.spec_message() == "'pii scan' requires a real file path"@
            && e.spec_remediation()
            == "DataFusion table registration needs random file access; stdin is not supported for pii scan"@,
{
    if crate::text::str_eq(path, "-") {
        Err(
            DatagovError::invalid_args(
                "'pii scan' requires a real file path",
                "DataFusion table registration needs random file access; stdin is not supported for pii scan",
            ),
        )
    } else {
        Ok(())
    }
}

/// A plain JSON array is not scanned (it is not registered as a table).
pub fn check_scan_format(path: &str, format: Format) -> (r: Result<(), DatagovError>)
    ensures
        format == Format::Json <==> r is Err,
        r matches Err(e) ==> e is UnsupportedInput && e.spec_message() == "'"@ + path@
            + "' is a JSON array; pii scan supports CSV, TSV, JSONL, and Parquet"@
            && e.spec_remediation() == "convert to .jsonl (one record per line), or use CSV/TSV/Parquet"@,
{
    match format {
        Format::Json => {
            let m = concat3("'", path, "' is a JSON array; pii scan supports CSV, TSV, JSONL, and Parquet");
            Err(
                DatagovError::unsupported_input(
                    m.as_str(),
                    "convert to .jsonl (one record per line), or use CSV/TSV/Parquet",
                ),
            )
        },
        _ => Ok(()),
    }
}

} // verus!
