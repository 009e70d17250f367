//! Masking of sample rows: every value of a column whose name is
//! heuristically sensitive is replaced by its masked rendering before a
//! sample row leaves the library.
use crate::mask::{mask_of, Masked};
use crate::sensitivity::{is_heuristically_sensitive, sensitive_match};
use vstd::prelude::*;

verus! {

/// The number of sample rows taken from the front of a dataset of `n`
/// rows.
pub open spec fn sample_len(n: int) -> int {
    if n < crate::delimited::DEFAULT_SAMPLE_ROWS {
        n
    } else {
        crate::delimited::DEFAULT_SAMPLE_ROWS as int
    }
}

/// How many sample rows a dataset of `n` rows has.
pub fn sample_count(n: usize) -> (k: usize)
    ensures
        k == sample_len(n as int),
{
    if n < crate::delimited::DEFAULT_SAMPLE_ROWS {
        n
    } else {
        crate::delimited::DEFAULT_SAMPLE_ROWS
    }
}

/// The replacement of one sample cell: the masked rendering of its raw
/// text when the column is sensitive and the cell is not null, else
/// nothing (the cell is kept).
pub open spec fn cell_mask(key: Seq<char>, raw: Option<Seq<char>>) -> Option<Seq<char>> {
    match raw {
        Some(t) => if sensitive_match(key) is Some {
            Some(mask_of(t))
        } else {
            None
        },
        None => None,
    }
}

/// Decide, for every cell of every sample row, whether it is replaced by
/// a masked rendering. Each row lists its cells as (column name, raw text),
/// with `None` for a null value; the raw text of a non-string value is its
/// compact JSON rendering.
pub fn mask_sample_rows(rows: &Vec<Vec<(String, Option<String>)>>) -> (r: Vec<Vec<Option<String>>>)
    ensures
        r@.len() == rows@.len(),
        forall|i: int| 0 <= i < rows@.len() ==> (#[trigger] r@[i])@.len() == rows@[i]@.len(),
        forall|i: int, j: int|
            0 <= i < rows@.len() && 0 <= j < rows@[i]@.len() ==> match (#[trigger] r@[i]@[j]) {
                Some(m) => cell_mask(rows@[i]@[j].0@, opt_view(rows@[i]@[j].1)) == Some(m@),
                None => cell_mask(rows@[i]@[j].0@, opt_view(rows@[i]@[j].1)) is None,
            },
{
    let mut out: Vec<Vec<Option<String>>> = Vec::new();
    let mut i: usize = 0;
    while i < rows.len()
        invariant
            i <= rows@.len(),
            out@.len() == i,
            forall|k: int| 0 <= k < i ==> (#[trigger] out@[k])@.len() == rows@[k]@.len(),
            forall|k: int, j: int|
                0 <= k < i && 0 <= j < rows@[k]@.len() ==> match (#[trigger] out@[k]@[j]) {
                    Some(m) => cell_mask(rows@[k]@[j].0@, opt_view(rows@[k]@[j].1)) == Some(m@),
                    None => cell_mask(rows@[k]@[j].0@, opt_view(rows@[k]@[j].1)) is None,
                },
        decreases rows.len() - i,
    {
        let row = &rows[i];
        let mut masked_row: Vec<Option<String>> = Vec::new();
        let mut j: usize = 0;
        while j < row.len()
            invariant
                j <= row@.len(),
                masked_row@.len() == j,
                forall|x: int|
                    0 <= x < j ==> match (#[trigger] masked_row@[x]) {
                        Some(m) => cell_mask(row@[x].0@, opt_view(row@[x].1)) == Some(m@),
                        None => cell_mask(row@[x].0@, opt_view(row@[x].1)) is None,
                    },
            decreases row.len() - j,
        {
            let cell = &row[j];
            let replacement = match &cell.1 {
                Some(raw) => if is_heuristically_sensitive(cell.0.as_str()) {
                    Some(Masked::new(raw.as_str()).to_string())
                } else {
                    None
                },
                None => None,
            };
            masked_row.push(replacement);
            j = j + 1;
        }
        out.push(masked_row);
        i = i + 1;
    }
    out
}

/// The view of an optional string.
pub open spec fn opt_view(o: Option<String>) -> Option<Seq<char>> {
    match o {
        Some(s) => Some(s@),
        None => None,
    }
}

/// A sample cell of a sensitive column that holds a value is always
/// replaced, and the replacement is the masked form of the value.
pub proof fn lemma_sensitive_cells_masked(key: Seq<char>, raw: Seq<char>)
    requires
        sensitive_match(key) is Some,
    ensures
        cell_mask(key, Some(raw)) == Some(mask_of(raw)),
{
}

} // verus!
