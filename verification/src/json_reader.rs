//! The JSON (one top-level array of objects, or a single object) and JSONL
//! (one object per non-blank line) reader.
//!
//! Records are the parsed top-level objects, each a list of (key, kind)
//! fields. The columns are the keys in first-seen order. A column's type is
//! the family of its non-null values (booleans, numbers, strings, arrays,
//! objects): numbers are Integer unless one is fractional (Float), no
//! non-null value makes it Null, and values of more than one family make it
//! Mixed. A column is nullable when some record lacks it or holds null. The
//! memory estimate counts 1 per null or boolean, 8 per number, the UTF-8
//! length plus 24 per string, 24 per array or object, and nothing for an
//! absent field.
use crate::delimited::{saturate, DatasetSummary};
use crate::error::DatagovError;
use crate::recognizer::strings_view;
use crate::report::{ColumnSchema, DataType};
use crate::text::{chars_of, concat2, str_eq};
use serde_json::Value;
use vstd::prelude::*;

verus! {

/// The kind of a JSON value.
#[derive(Debug, Clone, Copy, PartialEq, Eq, Structural)]
pub enum JsonKind {
    Null,
    Bool,
    /// A number representable as a 64-bit integer (signed or unsigned).
    Integer,
    /// Any other number.
    Fractional,
    Text,
    Array,
    Object,
}

/// One top-level field of a record.
#[derive(Debug)]
pub struct JsonField {
    pub key: String,
    pub kind: JsonKind,
    /// The UTF-8 length of a string value (0 for other kinds).
    pub text_bytes: usize,
}

/// A parsed JSON document, as far as the reader looks into it.
#[derive(Debug)]
pub enum JsonDocument {
    /// A single object (its fields).
    Object(Vec<JsonField>),
    /// An array; each element's fields when it is an object.
    Array(Vec<Option<Vec<JsonField>>>),
    /// Any other top-level value.
    Scalar,
}

/// A field as plain values: key, kind, string length.
pub type FieldModel = (Seq<char>, JsonKind, nat);

/// The plain values of a record.
pub open spec fn record_model(fs: Seq<JsonField>) -> Seq<FieldModel> {
    fs.map_values(|f: JsonField| (f.key@, f.kind, f.text_bytes as nat))
}

/// The plain values of a list of records.
pub open spec fn records_model(rs: Seq<Vec<JsonField>>) -> Seq<Seq<FieldModel>> {
    rs.map_values(|r: Vec<JsonField>| record_model(r@))
}

/// The records of a JSON document: the array's elements (all must be
/// objects) or the single object.
pub open spec fn document_error(doc: JsonDocument) -> Option<(bool, Seq<char>)> {
    match doc {
        JsonDocument::Object(_) => None,
        JsonDocument::Array(items) => if exists|i: int| 0 <= i < items@.len() && #[trigger] items@[i] is None {
            Some((false, "a JSON array element is not an object"@))
        } else {
            None
        },
        JsonDocument::Scalar => Some((true, "top-level JSON value is neither an array nor an object"@)),
    }
}

/// The records of array elements that are all objects.
pub open spec fn items_records(items: Seq<Option<Vec<JsonField>>>) -> Seq<Seq<FieldModel>> {
    items.map_values(|o: Option<Vec<JsonField>>| record_model(o.unwrap()@))
}

/// The records a document holds when it has no error.
pub open spec fn document_records(doc: JsonDocument) -> Seq<Seq<FieldModel>> {
    match doc {
        JsonDocument::Object(fs) => seq![record_model(fs@)],
        JsonDocument::Array(items) => items_records(items@),
        JsonDocument::Scalar => Seq::empty(),
    }
}

/// The error for a document that does not parse as JSON at all.
pub fn malformed_json(detail: &str) -> (e: DatagovError)
    ensures
        e is Internal && e.spec_message() == "malformed JSON: "@ + detail@,
{
    let m = concat2("malformed JSON: ", detail);
    DatagovError::internal(m.as_str())
}

/// The records of a parsed JSON document: each element of a top-level
/// array (an element that is not an object is an internal error), or a
/// single top-level object as a one-record dataset; any other top-level
/// value is unsupported input.
pub fn records_from_document(doc: JsonDocument) -> (r: Result<Vec<Vec<JsonField>>, DatagovError>)
    ensures
        match document_error(doc) {
            None => r is Ok && records_model(r->Ok_0@) == document_records(doc),
            Some((true, m)) => r is Err && r->Err_0 is UnsupportedInput && r->Err_0.spec_message() == m
                && r->Err_0.spec_remediation()
                == "provide a JSON array of objects, or a single JSON object"@,
            Some((false, m)) => r is Err && r->Err_0 is Internal && r->Err_0.spec_message() == m,
        },
{
    match doc {
        JsonDocument::Object(fs) => {
            let mut v: Vec<Vec<JsonField>> = Vec::new();
            let ghost m = record_model(fs@);
            v.push(fs);
            assert(records_model(v@) =~= seq![m]);
            Ok(v)
        },
        JsonDocument::Array(items) => {
            let ghost all = items@;
            let mut rest = items;
            let mut out: Vec<Vec<JsonField>> = Vec::new();
            let ghost mut done: int = 0;
            assert(all.skip(0) =~= all);
            while rest.len() > 0
                invariant
                    0 <= done <= all.len(),
                    rest@ == all.skip(done),
                    forall|k: int| 0 <= k < done ==> #[trigger] all[k] is Some,
                    records_model(out@) == items_records(all.take(done)),
                    doc matches JsonDocument::Array(its) && its@ == all,
                decreases rest.len(),
            {
                let item = rest.remove(0);
                assert(item == all[done]);
                assert(all.skip(done).skip(1) =~= all.skip(done + 1));
                match item {
                    Some(fs) => {
                        let ghost prev = out@;
                        let ghost fm = record_model(fs@);
                        out.push(fs);
                        assert(records_model(out@) =~= records_model(prev).push(fm));
                        assert(items_records(all.take(done + 1)) =~= items_records(all.take(done)).push(fm));
                        proof {
                            done = done + 1;
                        }
                    },
                    None => {
                        assert(all[done] is None);
                        return Err(DatagovError::internal("a JSON array element is not an object"));
                    },
                }
            }
            assert(all.take(done) =~= all);
            Ok(out)
        },
        JsonDocument::Scalar => Err(
            DatagovError::unsupported_input(
                "top-level JSON value is neither an array nor an object",
                "provide a JSON array of objects, or a single JSON object",
            ),
        ),
    }
}

} // verus!

verus! {

/// A character with the Unicode `White_Space` property (what
/// `char::is_whitespace`, and so `str::trim`, goes by).
pub open spec fn is_unicode_space(c: char) -> bool {
    ('\u{9}' <= c && c <= '\u{d}') || c == ' ' || c == '\u{85}' || c == '\u{a0}' || c == '\u{1680}' || (
    '\u{2000}' <= c && c <= '\u{200a}') || c == '\u{2028}' || c == '\u{2029}' || c == '\u{202f}' || c
        == '\u{205f}' || c == '\u{3000}'
}

/// Nothing but whitespace (what `line.trim().is_empty()` decides).
pub open spec fn blank(s: Seq<char>) -> bool {
    forall|i: int| 0 <= i < s.len() ==> #[trigger] is_unicode_space(s[i])
}

/// A line without the carriage return of a `\r\n` ending.
pub open spec fn strip_cr(x: Seq<char>) -> Seq<char> {
    if x.len() > 0 && x.last() == '\r' {
        x.drop_last()
    } else {
        x
    }
}

/// The lines of `s` as `str::lines` splits them: at `\n` or `\r\n`, with
/// no empty line after a final line ending.
pub open spec fn text_lines(s: Seq<char>) -> Seq<Seq<char>>
    decreases s.len(),
{
    if s.len() == 0 {
        Seq::empty()
    } else {
        let k = crate::literal::index_of(s, '\n');
        if k < 0 || k >= s.len() {
            seq![s]
        } else {
            seq![strip_cr(s.take(k))] + text_lines(s.skip(k + 1))
        }
    }
}

/// The lines that are not blank, in order.
pub open spec fn non_blank(lines: Seq<Seq<char>>) -> Seq<Seq<char>>
    decreases lines.len(),
{
    if lines.len() == 0 {
        Seq::empty()
    } else if blank(lines[0]) {
        non_blank(lines.skip(1))
    } else {
        seq![lines[0]] + non_blank(lines.skip(1))
    }
}

fn is_space(c: char) -> (r: bool)
    ensures
        r == is_unicode_space(c),
{
    ('\u{9}' <= c && c <= '\u{d}') || c == ' ' || c == '\u{85}' || c == '\u{a0}' || c == '\u{1680}' || (
    '\u{2000}' <= c && c <= '\u{200a}') || c == '\u{2028}' || c == '\u{2029}' || c == '\u{202f}' || c
        == '\u{205f}' || c == '\u{3000}'
}

fn is_blank(s: &[char], from: usize, to: usize) -> (r: bool)
    requires
        from <= to <= s@.len(),
    ensures
        r == blank(s@.subrange(from as int, to as int)),
{
    let mut i = from;
    while i < to
        invariant
            from <= i <= to,
            to <= s@.len(),
            forall|j: int| from <= j < i ==> is_unicode_space(s@[j]),
        decreases to - i,
    {
        if !is_space(s[i]) {
            assert(!is_unicode_space(s@.subrange(from as int, to as int)[i - from]));
            return false;
        }
        i = i + 1;
    }
    assert forall|j: int| 0 <= j < to - from implies #[trigger] is_unicode_space(
        s@.subrange(from as int, to as int)[j],
    ) by {
        assert(s@.subrange(from as int, to as int)[j] == s@[from + j]);
    }
    true
}

fn string_of(s: &[char], from: usize, to: usize) -> (r: String)
    requires
        from <= to <= s@.len(),
    ensures
        r@ == s@.subrange(from as int, to as int),
{
    let mut r = String::new();
    let mut i = from;
    while i < to
        invariant
            from <= i <= to,
            to <= s@.len(),
            r@ == s@.subrange(from as int, i as int),
        decreases to - i,
    {
        crate::text::push_char(&mut r, s[i]);
        assert(r@ =~= s@.subrange(from as int, i + 1));
        i = i + 1;
    }
    r
}

proof fn lemma_lines_step(s: Seq<char>, start: int, k: int)
    requires
        0 <= start <= k < s.len(),
        s[k] == '\n',
        forall|j: int| start <= j < k ==> s[j] != '\n',
    ensures
        text_lines(s.skip(start)) == seq![strip_cr(s.subrange(start, k))] + text_lines(s.skip(k + 1)),
{
    let t = s.skip(start);
    crate::literal::lemma_index_of_pub(t, '\n');
    assert(t[k - start] == '\n');
    if crate::literal::index_of(t, '\n') < k - start {
        assert(t[crate::literal::index_of(t, '\n')] == s[start + crate::literal::index_of(t, '\n')]);
    }
    assert(crate::literal::index_of(t, '\n') == k - start);
    assert(t.take(k - start) =~= s.subrange(start, k));
    assert(t.skip(k - start + 1) =~= s.skip(k + 1));
}

proof fn lemma_lines_last(s: Seq<char>, start: int)
    requires
        0 <= start < s.len(),
        forall|j: int| start <= j < s.len() ==> s[j] != '\n',
    ensures
        text_lines(s.skip(start)) == seq![s.subrange(start, s.len() as int)],
{
    let t = s.skip(start);
    crate::literal::lemma_index_of_pub(t, '\n');
    if crate::literal::index_of(t, '\n') < t.len() {
        assert(t[crate::literal::index_of(t, '\n')] == s[start + crate::literal::index_of(t, '\n')]);
    }
    assert(t =~= s.subrange(start, s.len() as int));
}

/// The non-blank lines of JSONL text: one record per line.
pub fn jsonl_record_lines(text: &str) -> (r: Vec<String>)
    ensures
        strings_view(r@) == non_blank(text_lines(text@)),
{
    let s = chars_of(text);
    let n = s.len();
    let mut out: Vec<String> = Vec::new();
    let mut start: usize = 0;
    let mut i: usize = 0;
    assert(s@.skip(0) =~= s@);
    while i < n
        invariant
            start <= i <= n,
            n == s@.len(),
            s@ == text@,
            forall|j: int| start <= j < i ==> s@[j] != '\n',
            non_blank(text_lines(text@)) == strings_view(out@) + non_blank(text_lines(s@.skip(start as int))),
        decreases n - i,
    {
        if s[i] == '\n' {
            proof {
                lemma_lines_step(s@, start as int, i as int);
            }
            let end = if i > start && s[i - 1] == '\r' {
                i - 1
            } else {
                i
            };
            assert(strip_cr(s@.subrange(start as int, i as int)) =~= s@.subrange(start as int, end as int));
            let ghost line = s@.subrange(start as int, end as int);
            let ghost rest = text_lines(s@.skip(i + 1));
            assert((seq![line] + rest).skip(1) =~= rest);
            assert((seq![line] + rest)[0] == line);
            if !is_blank(&s, start, end) {
                let l = string_of(&s, start, end);
                let ghost prev = out@;
                out.push(l);
                assert(strings_view(out@) =~= strings_view(prev).push(line));
                assert(non_blank(seq![line] + rest) =~= seq![line] + non_blank(rest));
                assert(strings_view(out@) + non_blank(rest) =~= strings_view(prev) + (seq![line] + non_blank(rest)));
            }
            start = i + 1;
        }
        i = i + 1;
    }
    if start < n {
        proof {
            lemma_lines_last(s@, start as int);
        }
        let ghost line = s@.subrange(start as int, n as int);
        assert((seq![line]).skip(1) =~= Seq::<Seq<char>>::empty());
        if !is_blank(&s, start, n) {
            let l = string_of(&s, start, n);
            let ghost prev = out@;
            out.push(l);
            assert(strings_view(out@) =~= strings_view(prev).push(line));
            assert(seq![line][0] == line);
            assert(non_blank(seq![line].skip(1)) =~= Seq::<Seq<char>>::empty());
            assert(non_blank(seq![line]) =~= seq![line]);
        }
    } else {
        assert(s@.skip(start as int).len() == 0);
    }
    proof {
        assert(non_blank(Seq::<Seq<char>>::empty()) == Seq::<Seq<char>>::empty());
    }
    assert(strings_view(out@) =~= non_blank(text_lines(text@)));
    out
}

} // verus!

verus! {

/// The problem with one parsed JSONL line, if any.
pub open spec fn line_problem(p: Result<JsonDocument, String>) -> Option<Seq<char>> {
    match p {
        Err(e) => Some("malformed JSONL line: "@ + e@),
        Ok(JsonDocument::Object(_)) => None,
        Ok(_) => Some("a JSONL line is not a JSON object"@),
    }
}

/// The first problem among parsed JSONL lines.
pub open spec fn first_line_problem(ps: Seq<Result<JsonDocument, String>>) -> Option<Seq<char>>
    decreases ps.len(),
{
    if ps.len() == 0 {
        None
    } else if line_problem(ps[0]) is Some {
        line_problem(ps[0])
    } else {
        first_line_problem(ps.skip(1))
    }
}

/// The record of a parsed line that is an object.
pub open spec fn line_record(p: Result<JsonDocument, String>) -> Seq<FieldModel> {
    match p {
        Ok(JsonDocument::Object(fs)) => record_model(fs@),
        _ => Seq::empty(),
    }
}

/// The records of parsed lines that are all objects.
pub open spec fn line_records(ps: Seq<Result<JsonDocument, String>>) -> Seq<Seq<FieldModel>> {
    ps.map_values(|p: Result<JsonDocument, String>| line_record(p))
}

/// The records of JSONL text, given each record line's parse (or the
/// parser's error text): the first line that does not parse, or is not an
/// object, is an internal error.
pub fn records_from_jsonl(parsed: Vec<Result<JsonDocument, String>>) -> (r: Result<
    Vec<Vec<JsonField>>,
    DatagovError,
>)
    ensures
        match first_line_problem(parsed@) {
            None => r is Ok && records_model(r->Ok_0@) == line_records(parsed@),
            Some(m) => r is Err && r->Err_0 is Internal && r->Err_0.spec_message() == m,
        },
{
    let ghost all = parsed@;
    let mut rest = parsed;
    let mut out: Vec<Vec<JsonField>> = Vec::new();
    let ghost mut done: int = 0;
    assert(all.skip(0) =~= all);
    while rest.len() > 0
        invariant
            all == parsed@,
            0 <= done <= all.len(),
            rest@ == all.skip(done),
            first_line_problem(all) == first_line_problem(all.skip(done)),
            records_model(out@) == line_records(all.take(done)),
        decreases rest.len(),
    {
        let p = rest.remove(0);
        assert(p == all[done]);
        assert(all.skip(done)[0] == all[done]);
        assert(all.skip(done).skip(1) =~= all.skip(done + 1));
        match p {
            Ok(JsonDocument::Object(fs)) => {
                let ghost prev = out@;
                let ghost fm = record_model(fs@);
                out.push(fs);
                assert(records_model(out@) =~= records_model(prev).push(fm));
                assert(line_records(all.take(done + 1)) =~= line_records(all.take(done)).push(fm));
                proof {
                    done = done + 1;
                }
            },
            Ok(_) => {
                return Err(DatagovError::internal("a JSONL line is not a JSON object"));
            },
            Err(e) => {
                let m = concat2("malformed JSONL line: ", e.as_str());
                return Err(DatagovError::internal(m.as_str()));
            },
        }
    }
    assert(all.take(done) =~= all);
    Ok(out)
}

/// The value of `key` in a record: the first field with that key.
pub open spec fn lookup(fs: Seq<FieldModel>, key: Seq<char>) -> Option<FieldModel>
    decreases fs.len(),
{
    if fs.len() == 0 {
        None
    } else if fs[0].0 == key {
        Some(fs[0])
    } else {
        lookup(fs.skip(1), key)
    }
}

/// `key` after `seen` unless already there.
pub open spec fn add_key(seen: Seq<Seq<char>>, key: Seq<char>) -> Seq<Seq<char>> {
    if seen.contains(key) {
        seen
    } else {
        seen.push(key)
    }
}

/// The keys of `fs` added to `seen` in order.
pub open spec fn add_keys(seen: Seq<Seq<char>>, fs: Seq<FieldModel>) -> Seq<Seq<char>>
    decreases fs.len(),
{
    if fs.len() == 0 {
        seen
    } else {
        add_key(add_keys(seen, fs.drop_last()), fs.last().0)
    }
}

/// The columns: every key, in first-seen order.
pub open spec fn column_order(records: Seq<Seq<FieldModel>>) -> Seq<Seq<char>>
    decreases records.len(),
{
    if records.len() == 0 {
        Seq::empty()
    } else {
        add_keys(column_order(records.drop_last()), records.last())
    }
}

/// The family of a non-null kind: booleans, numbers, strings, arrays,
/// objects.
pub open spec fn family(k: JsonKind) -> int {
    match k {
        JsonKind::Null => -1,
        JsonKind::Bool => 0,
        JsonKind::Integer | JsonKind::Fractional => 1,
        JsonKind::Text => 2,
        JsonKind::Array => 3,
        JsonKind::Object => 4,
    }
}

/// The kinds of a column's non-null values, record by record.
pub open spec fn present_kinds(records: Seq<Seq<FieldModel>>, key: Seq<char>) -> Seq<JsonKind>
    decreases records.len(),
{
    if records.len() == 0 {
        Seq::empty()
    } else {
        present_kinds(records.drop_last(), key) + match lookup(records.last(), key) {
            Some(f) => if f.1 == JsonKind::Null {
                Seq::empty()
            } else {
                seq![f.1]
            },
            None => Seq::empty(),
        }
    }
}

/// The type of a column from the kinds of its non-null values.
pub open spec fn json_type(kinds: Seq<JsonKind>) -> DataType {
    if kinds.len() == 0 {
        DataType::Null
    } else if exists|i: int| 0 <= i < kinds.len() && family(#[trigger] kinds[i]) != family(kinds[0]) {
        DataType::Mixed
    } else {
        match kinds[0] {
            JsonKind::Bool => DataType::Boolean,
            JsonKind::Integer | JsonKind::Fractional => if kinds.contains(JsonKind::Fractional) {
                DataType::Float
            } else {
                DataType::Integer
            },
            JsonKind::Text => DataType::String,
            JsonKind::Array => DataType::Array,
            _ => DataType::Object,
        }
    }
}

/// Some record lacks the column or holds null in it.
pub open spec fn json_nullable(records: Seq<Seq<FieldModel>>, key: Seq<char>) -> bool {
    exists|r: int|
        0 <= r < records.len() && match #[trigger] lookup(records[r], key) {
            None => true,
            Some(f) => f.1 == JsonKind::Null,
        }
}

/// The memory estimate of one field value.
pub open spec fn field_memory(f: Option<FieldModel>) -> int {
    match f {
        None => 0,
        Some(f) => match f.1 {
            JsonKind::Null | JsonKind::Bool => 1,
            JsonKind::Integer | JsonKind::Fractional => 8,
            JsonKind::Text => f.2 as int + 24,
            _ => 24,
        },
    }
}

/// The memory estimate of a column over the records.
pub open spec fn json_column_memory(records: Seq<Seq<FieldModel>>, key: Seq<char>) -> int
    decreases records.len(),
{
    if records.len() == 0 {
        0
    } else {
        json_column_memory(records.drop_last(), key) + field_memory(lookup(records.last(), key))
    }
}

/// The memory estimate of the first `n` columns.
pub open spec fn json_memory(records: Seq<Seq<FieldModel>>, cols: Seq<Seq<char>>, n: int) -> int
    decreases n,
{
    if n <= 0 {
        0
    } else {
        json_memory(records, cols, n - 1) + json_column_memory(records, cols[n - 1])
    }
}

} // verus!

verus! {

fn lookup_exec(fs: &Vec<JsonField>, key: &str) -> (r: Option<(JsonKind, usize)>)
    ensures
        match r {
            Some((k, n)) => lookup(record_model(fs@), key@) == Some((key@, k, n as nat)),
            None => lookup(record_model(fs@), key@) is None,
        },
{
    let ghost m = record_model(fs@);
    let mut i: usize = 0;
    assert(m.skip(0) =~= m);
    while i < fs.len()
        invariant
            i <= fs@.len(),
            m == record_model(fs@),
            lookup(m, key@) == lookup(m.skip(i as int), key@),
        decreases fs.len() - i,
    {
        assert(m.skip(i as int)[0] == m[i as int]);
        assert(m.skip(i as int).skip(1) =~= m.skip(i + 1));
        if str_eq(fs[i].key.as_str(), key) {
            return Some((fs[i].kind, fs[i].text_bytes));
        }
        i = i + 1;
    }
    None
}

fn contains_name(v: &Vec<String>, key: &str) -> (r: bool)
    ensures
        r == strings_view(v@).contains(key@),
{
    let mut i: usize = 0;
    while i < v.len()
        invariant
            i <= v@.len(),
            forall|j: int| 0 <= j < i ==> strings_view(v@)[j] != key@,
        decreases v.len() - i,
    {
        if str_eq(v[i].as_str(), key) {
            assert(strings_view(v@)[i as int] == key@);
            return true;
        }
        i = i + 1;
    }
    false
}

/// The columns of the records: every key, in first-seen order.
pub fn json_column_order(records: &Vec<Vec<JsonField>>) -> (cols: Vec<String>)
    ensures
        strings_view(cols@) == column_order(records_model(records@)),
{
    let ghost rm = records_model(records@);
    let mut cols: Vec<String> = Vec::new();
    let mut r: usize = 0;
    while r < records.len()
        invariant
            r <= records@.len(),
            rm == records_model(records@),
            strings_view(cols@) == column_order(rm.take(r as int)),
        decreases records.len() - r,
    {
        let fs = &records[r];
        let ghost fm = record_model(fs@);
        assert(rm[r as int] == fm);
        let ghost base = strings_view(cols@);
        let mut j: usize = 0;
        while j < fs.len()
            invariant
                j <= fs@.len(),
                fm == record_model(fs@),
                strings_view(cols@) == add_keys(base, fm.take(j as int)),
            decreases fs.len() - j,
        {
            assert(fm.take(j + 1).drop_last() =~= fm.take(j as int));
            assert(fm.take(j + 1).last() == fm[j as int]);
            let key = fs[j].key.as_str();
            if !contains_name(&cols, key) {
                let ghost prev = cols@;
                cols.push(String::from_str(key));
                assert(strings_view(cols@) =~= strings_view(prev).push(key@));
            }
            j = j + 1;
        }
        assert(fm.take(j as int) =~= fm);
        assert(rm.take(r + 1).drop_last() =~= rm.take(r as int));
        assert(rm.take(r + 1).last() == fm);
        r = r + 1;
    }
    assert(rm.take(r as int) =~= rm);
    cols
}

/// The type, nullability and (capped) memory estimate of one column.
fn json_column_stats(records: &Vec<Vec<JsonField>>, key: &str) -> (r: (DataType, bool, u128))
    ensures
        r.0 == json_type(present_kinds(records_model(records@), key@)),
        r.1 == json_nullable(records_model(records@), key@),
        r.2 == (if json_column_memory(records_model(records@), key@) < 0x1_0000_0000_0000_0000 {
            json_column_memory(records_model(records@), key@)
        } else {
            0x1_0000_0000_0000_0000
        }),
{
    let ghost rm = records_model(records@);
    let cap: u128 = 0x1_0000_0000_0000_0000;
    let mut first: Option<JsonKind> = None;
    let mut mixed = false;
    let mut fractional = false;
    let mut nullable = false;
    let mut memory: u128 = 0;
    let mut r: usize = 0;
    while r < records.len()
        invariant
            r <= records@.len(),
            rm == records_model(records@),
            cap == 0x1_0000_0000_0000_0000,
            first == (if present_kinds(rm.take(r as int), key@).len() > 0 {
                Some(present_kinds(rm.take(r as int), key@)[0])
            } else {
                None::<JsonKind>
            }),
            mixed == exists|i: int|
                0 <= i < present_kinds(rm.take(r as int), key@).len() && family(
                    #[trigger] present_kinds(rm.take(r as int), key@)[i],
                ) != family(present_kinds(rm.take(r as int), key@)[0]),
            fractional == present_kinds(rm.take(r as int), key@).contains(JsonKind::Fractional),
            nullable == json_nullable(rm.take(r as int), key@),
            memory == (if json_column_memory(rm.take(r as int), key@) < cap {
                json_column_memory(rm.take(r as int), key@)
            } else {
                cap as int
            }),
        decreases records.len() - r,
    {
        let ghost p = rm.take(r as int);
        let ghost q = rm.take(r + 1);
        assert(q.drop_last() =~= p);
        assert(q.last() == rm[r as int]);
        assert(rm[r as int] == record_model(records@[r as int]@));
        let ghost pk = present_kinds(p, key@);
        let found = lookup_exec(&records[r], key);
        let add: u128 = match found {
            None => 0,
            Some((k, n)) => match k {
                JsonKind::Null | JsonKind::Bool => 1,
                JsonKind::Integer | JsonKind::Fractional => 8,
                JsonKind::Text => (n as u128) + 24,
                _ => 24,
            },
        };
        match found {
            None => {
                nullable = true;
                assert(present_kinds(q, key@) =~= pk);
                assert(lookup(q[r as int], key@) is None);
            },
            Some((k, _)) => {
                if k == JsonKind::Null {
                    nullable = true;
                    assert(present_kinds(q, key@) =~= pk);
                    assert(lookup(q[r as int], key@) matches Some(f) && f.1 == JsonKind::Null);
                } else {
                    assert(present_kinds(q, key@) =~= pk.push(k));
                    match first {
                        None => {
                            first = Some(k);
                        },
                        Some(f) => {
                            if family_exec(k) != family_exec(f) {
                                mixed = true;
                                assert(family(present_kinds(q, key@)[pk.len() as int]) != family(
                                    present_kinds(q, key@)[0],
                                ));
                            }
                        },
                    }
                    if k == JsonKind::Fractional {
                        fractional = true;
                        assert(present_kinds(q, key@)[pk.len() as int] == JsonKind::Fractional);
                    }
                }
            },
        }
        proof {
            if json_nullable(p, key@) {
                let x = choose|x: int|
                    0 <= x < p.len() && match #[trigger] lookup(p[x], key@) {
                        None => true,
                        Some(f) => f.1 == JsonKind::Null,
                    };
                assert(q[x] == p[x]);
            }
            if json_nullable(q, key@) && !json_nullable(p, key@) {
                let x = choose|x: int|
                    0 <= x < q.len() && match #[trigger] lookup(q[x], key@) {
                        None => true,
                        Some(f) => f.1 == JsonKind::Null,
                    };
                if x < r {
                    assert(q[x] == p[x]);
                }
            }
            let qk = present_kinds(q, key@);
            if qk.len() > pk.len() {
                assert forall|i: int| 0 <= i < pk.len() implies qk[i] == pk[i] by {}
                if qk.contains(JsonKind::Fractional) && !pk.contains(JsonKind::Fractional) {
                    let i = choose|i: int| 0 <= i < qk.len() && qk[i] == JsonKind::Fractional;
                    if i < pk.len() {
                        assert(pk[i] == JsonKind::Fractional);
                    }
                }
                if pk.contains(JsonKind::Fractional) {
                    let i = choose|i: int| 0 <= i < pk.len() && pk[i] == JsonKind::Fractional;
                    assert(qk[i] == JsonKind::Fractional);
                }
                if pk.len() > 0 {
                    assert(qk[0] == pk[0]);
                }
            }
        }
        if memory + add < cap {
            memory = memory + add;
        } else {
            memory = cap;
        }
        r = r + 1;
    }
    assert(rm.take(r as int) =~= rm);
    let t = match first {
        None => DataType::Null,
        Some(k) => if mixed {
            DataType::Mixed
        } else {
            match k {
                JsonKind::Bool => DataType::Boolean,
                JsonKind::Integer | JsonKind::Fractional => if fractional {
                    DataType::Float
                } else {
                    DataType::Integer
                },
                JsonKind::Text => DataType::String,
                JsonKind::Array => DataType::Array,
                _ => DataType::Object,
            }
        },
    };
    (t, nullable, memory)
}

fn family_exec(k: JsonKind) -> (f: i8)
    ensures
        f == family(k),
{
    match k {
        JsonKind::Null => -1,
        JsonKind::Bool => 0,
        JsonKind::Integer | JsonKind::Fractional => 1,
        JsonKind::Text => 2,
        JsonKind::Array => 3,
        JsonKind::Object => 4,
    }
}

} // verus!

verus! {

/// Reads JSON (`jsonl == false`) or JSONL.
#[derive(Debug)]
pub struct JsonReader {
    pub jsonl: bool,
}

/// What the summary of JSON records states. The sample rows of a JSON
/// dataset are its first records themselves (see `sample_count`), so the
/// summary carries no typed sample cells.
pub open spec fn json_summarizes(s: DatasetSummary, format: Seq<char>, records: Seq<Seq<FieldModel>>) -> bool {
    let cols = column_order(records);
    &&& s.format@ == format
    &&& s.row_count == records.len()
    &&& s.column_count == cols.len() as u32
    &&& s.schema@.len() == cols.len()
    &&& forall|i: int|
        0 <= i < cols.len() ==> {
            &&& (#[trigger] s.schema@[i]).name@ == cols[i]
            &&& s.schema@[i].data_type == json_type(present_kinds(records, cols[i]))
            &&& s.schema@[i].nullable == json_nullable(records, cols[i])
        }
    &&& s.approx_memory_bytes == saturate(json_memory(records, cols, cols.len() as int))
    &&& s.sample_rows@.len() == 0
}

impl JsonReader {
    /// The format label: `jsonl` or `json`.
    pub open spec fn format_spec(&self) -> Seq<char> {
        if self.jsonl {
            "jsonl"@
        } else {
            "json"@
        }
    }

    /// Summarize parsed records.
    pub fn summarize(&self, records: &Vec<Vec<JsonField>>) -> (s: DatasetSummary)
        ensures
            json_summarizes(s, self.format_spec(), records_model(records@)),
    {
        let ghost rm = records_model(records@);
        let cols = json_column_order(records);
        let ghost cv = strings_view(cols@);
        let mut schema: Vec<ColumnSchema> = Vec::new();
        let mut memory: u64 = 0;
        let mut i: usize = 0;
        while i < cols.len()
            invariant
                i <= cols@.len(),
                rm == records_model(records@),
                cv == strings_view(cols@),
                cv == column_order(rm),
                schema@.len() == i,
                forall|k: int|
                    0 <= k < i ==> {
                        &&& (#[trigger] schema@[k]).name@ == cv[k]
                        &&& schema@[k].data_type == json_type(present_kinds(rm, cv[k]))
                        &&& schema@[k].nullable == json_nullable(rm, cv[k])
                    },
                memory == saturate(json_memory(rm, cv, i as int)),
            decreases cols.len() - i,
        {
            let (t, nullable, m) = json_column_stats(records, cols[i].as_str());
            let m64: u64 = if m <= u64::MAX as u128 {
                m as u64
            } else {
                u64::MAX
            };
            memory = memory.saturating_add(m64);
            schema.push(ColumnSchema { name: String::from_str(cols[i].as_str()), data_type: t, nullable });
            i = i + 1;
        }
        let format = if self.jsonl {
            "jsonl"
        } else {
            "json"
        };
        DatasetSummary {
            format: String::from_str(format),
            row_count: records.len() as u64,
            column_count: #[verifier::truncate] (cols.len() as u32),
            schema,
            approx_memory_bytes: memory,
            sample_rows: Vec::new(),
        }
    }
}

} // verus!

verus! {

/// No key occurs twice.
pub open spec fn no_repeats(s: Seq<Seq<char>>) -> bool {
    forall|i: int, j: int| 0 <= i < j < s.len() ==> #[trigger] s[i] != #[trigger] s[j]
}

proof fn lemma_add_keys_no_repeats(seen: Seq<Seq<char>>, fs: Seq<FieldModel>)
    requires
        no_repeats(seen),
    ensures
        no_repeats(add_keys(seen, fs)),
        forall|k: Seq<char>| seen.contains(k) ==> #[trigger] add_keys(seen, fs).contains(k),
        forall|i: int| 0 <= i < fs.len() ==> add_keys(seen, fs).contains(#[trigger] fs[i].0),
    decreases fs.len(),
{
    if fs.len() > 0 {
        let prev = add_keys(seen, fs.drop_last());
        lemma_add_keys_no_repeats(seen, fs.drop_last());
        let key = fs.last().0;
        if !prev.contains(key) {
            let r = prev.push(key);
            assert forall|i: int, j: int| 0 <= i < j < r.len() implies #[trigger] r[i] != #[trigger] r[j] by {
                if j == prev.len() {
                    assert(r[i] == prev[i]);
                    if r[i] == key {
                        assert(prev.contains(key));
                    }
                } else {
                    assert(r[i] == prev[i] && r[j] == prev[j]);
                }
            }
            assert forall|k: Seq<char>| prev.contains(k) implies #[trigger] r.contains(k) by {
                let i = choose|i: int| 0 <= i < prev.len() && prev[i] == k;
                assert(r[i] == k);
            }
            assert(r[prev.len() as int] == key);
        }
        assert forall|i: int| 0 <= i < fs.len() implies add_keys(seen, fs).contains(#[trigger] fs[i].0) by {
            if i < fs.len() - 1 {
                assert(fs.drop_last()[i] == fs[i]);
                assert(prev.contains(fs[i].0));
            } else if prev.contains(key) {
            } else {
                assert(prev.push(key)[prev.len() as int] == key);
            }
        }
    }
}

/// The columns of JSON records hold every key of every record, each
/// exactly once.
pub proof fn lemma_column_order_distinct(records: Seq<Seq<FieldModel>>)
    ensures
        no_repeats(column_order(records)),
        forall|r: int, i: int|
            0 <= r < records.len() && 0 <= i < records[r].len() ==> column_order(records).contains(
                #[trigger] records[r][i].0,
            ),
    decreases records.len(),
{
    if records.len() > 0 {
        let prev = records.drop_last();
        lemma_column_order_distinct(prev);
        lemma_add_keys_no_repeats(column_order(prev), records.last());
        assert forall|r: int, i: int|
            0 <= r < records.len() && 0 <= i < records[r].len() implies column_order(records).contains(
            #[trigger] records[r][i].0,
        ) by {
            if r < records.len() - 1 {
                assert(prev[r] == records[r]);
                assert(column_order(prev).contains(prev[r][i].0));
            } else {
                assert(records.last()[i] == records[r][i]);
            }
        }
    }
}

} // verus!

verus! {

/// A JSON value of `serde_json`.
#[verifier::external_type_specification]
#[verifier::external_body]
pub struct ExternalJsonValue(Value);

/// The kind of a `serde_json` value, one variant to one kind (a number is
/// `Integer` when `serde_json` holds it as a 64-bit integer).
#[verifier::external_body]
fn json_kind(v: &Value) -> JsonKind {
    match v {
        Value::Null => JsonKind::Null,
        Value::Bool(_) => JsonKind::Bool,
        Value::Number(n) if n.is_i64() || n.is_u64() => JsonKind::Integer,
        Value::Number(_) => JsonKind::Fractional,
        Value::String(_) => JsonKind::Text,
        Value::Array(_) => JsonKind::Array,
        Value::Object(_) => JsonKind::Object,
    }
}

/// The fields of a `serde_json` object, in the map's order, each with its
/// kind and, for a string, its UTF-8 length; `None` for any other value.
#[verifier::external_body]
fn json_fields(v: &Value) -> Option<Vec<JsonField>> {
    let Value::Object(map) = v else { return None };
    Some(map.iter().map(|(k, x)| JsonField {
        key: k.clone(),
        kind: json_kind(x),
        text_bytes: x.as_str().map_or(0, str::len),
    }).collect())
}

/// What `serde_json::from_str::<serde_json::Value>` makes of `text`, as far
/// as the reader looks into it: the document (an object's fields; an
/// array's elements' fields, when they are objects; or any other value),
/// or the display text of the parser's error.
pub uninterp spec fn json_parse(text: Seq<char>) -> Result<JsonDocument, Seq<char>>;

/// Parses `text` with `serde_json::from_str` into a `serde_json::Value` and
/// reads the document's shape out of it. The outcome is named `json_parse`.
#[verifier::external_body]
pub fn parse_json_document(text: &str) -> (r: Result<JsonDocument, String>)
    ensures
        match r {
            Ok(d) => json_parse(text@) == Ok::<JsonDocument, Seq<char>>(d),
            Err(e) => json_parse(text@) == Err::<JsonDocument, Seq<char>>(e@),
        },
{
    let v: Value = serde_json::from_str(text).map_err(|e| e.to_string())?;
    Ok(match &v {
        Value::Object(_) => JsonDocument::Object(json_fields(&v).unwrap_or_default()),
        Value::Array(items) => JsonDocument::Array(items.iter().map(json_fields).collect()),
        _ => JsonDocument::Scalar,
    })
}

/// The view of a line's parse outcome.
pub open spec fn outcome_view(p: Result<JsonDocument, String>) -> Result<JsonDocument, Seq<char>> {
    match p {
        Ok(d) => Ok(d),
        Err(e) => Err(e@),
    }
}

/// The problem with one line's parse outcome, if any.
pub open spec fn outcome_problem(o: Result<JsonDocument, Seq<char>>) -> Option<Seq<char>> {
    match o {
        Err(e) => Some("malformed JSONL line: "@ + e),
        Ok(JsonDocument::Object(_)) => None,
        Ok(_) => Some("a JSONL line is not a JSON object"@),
    }
}

/// The first problem among the lines' parse outcomes.
pub open spec fn first_outcome_problem(os: Seq<Result<JsonDocument, Seq<char>>>) -> Option<Seq<char>>
    decreases os.len(),
{
    if os.len() == 0 {
        None
    } else if outcome_problem(os[0]) is Some {
        outcome_problem(os[0])
    } else {
        first_outcome_problem(os.skip(1))
    }
}

/// The record of a line that parsed to an object.
pub open spec fn outcome_record(o: Result<JsonDocument, Seq<char>>) -> Seq<FieldModel> {
    match o {
        Ok(JsonDocument::Object(fs)) => record_model(fs@),
        _ => Seq::empty(),
    }
}

/// What `serde_json` makes of each record line.
pub open spec fn line_outcomes(lines: Seq<Seq<char>>) -> Seq<Result<JsonDocument, Seq<char>>> {
    lines.map_values(|l: Seq<char>| json_parse(l))
}

/// The records of JSON (`jsonl == false`) or JSONL text, or the error: a
/// flag telling unsupported input from an internal error, and its message.
pub open spec fn json_records(jsonl: bool, text: Seq<char>) -> Result<
    Seq<Seq<FieldModel>>,
    (bool, Seq<char>),
> {
    if jsonl {
        let os = line_outcomes(non_blank(text_lines(text)));
        match first_outcome_problem(os) {
            Some(m) => Err((false, m)),
            None => Ok(os.map_values(|o: Result<JsonDocument, Seq<char>>| outcome_record(o))),
        }
    } else {
        match json_parse(text) {
            Err(e) => Err((false, "malformed JSON: "@ + e)),
            Ok(doc) => match document_error(doc) {
                Some(x) => Err(x),
                None => Ok(document_records(doc)),
            },
        }
    }
}

proof fn lemma_outcomes(ps: Seq<Result<JsonDocument, String>>)
    ensures
        first_line_problem(ps) == first_outcome_problem(ps.map_values(|p: Result<JsonDocument, String>| outcome_view(p))),
        line_records(ps) == ps.map_values(|p: Result<JsonDocument, String>| outcome_view(p)).map_values(
            |o: Result<JsonDocument, Seq<char>>| outcome_record(o),
        ),
    decreases ps.len(),
{
    let vs = ps.map_values(|p: Result<JsonDocument, String>| outcome_view(p));
    assert(line_records(ps) =~= vs.map_values(|o: Result<JsonDocument, Seq<char>>| outcome_record(o)));
    if ps.len() > 0 {
        lemma_outcomes(ps.skip(1));
        assert(ps.skip(1).map_values(|p: Result<JsonDocument, String>| outcome_view(p)) =~= vs.skip(1));
        assert(line_problem(ps[0]) == outcome_problem(vs[0]));
    }
}

impl JsonReader {
    /// Read JSON or JSONL text: parse it (each non-blank line, for JSONL),
    /// take its records, and summarize them.
    pub fn inspect(&self, text: &str) -> (r: Result<DatasetSummary, DatagovError>)
        ensures
            match json_records(self.jsonl, text@) {
                Ok(rs) => r is Ok && json_summarizes(r->Ok_0, self.format_spec(), rs),
                Err((unsupported, m)) => r is Err && r->Err_0.spec_message() == m && (if unsupported {
                    r->Err_0 is UnsupportedInput
                } else {
                    r->Err_0 is Internal
                }),
            },
    {
        if self.jsonl {
            let lines = jsonl_record_lines(text);
            let ghost ls = strings_view(lines@);
            let mut parsed: Vec<Result<JsonDocument, String>> = Vec::new();
            let mut i: usize = 0;
            while i < lines.len()
                invariant
                    i <= lines@.len(),
                    ls == strings_view(lines@),
                    parsed@.len() == i,
                    forall|k: int| 0 <= k < i ==> outcome_view(#[trigger] parsed@[k]) == json_parse(ls[k]),
                decreases lines.len() - i,
            {
                let p = parse_json_document(lines[i].as_str());
                parsed.push(p);
                i = i + 1;
            }
            proof {
                let vs = parsed@.map_values(|p: Result<JsonDocument, String>| outcome_view(p));
                assert(vs =~= line_outcomes(ls));
                lemma_outcomes(parsed@);
            }
            let records = records_from_jsonl(parsed)?;
            Ok(self.summarize(&records))
        } else {
            match parse_json_document(text) {
                Err(e) => Err(malformed_json(e.as_str())),
                Ok(doc) => {
                    let records = records_from_document(doc)?;
                    Ok(self.summarize(&records))
                },
            }
        }
    }
}

} // verus!
