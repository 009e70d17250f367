//! Table naming for the query engine: turning a file stem into a valid,
//! unquoted SQL identifier and de-duplicating it against names already in
//! use, plus the rule for which formats the engine registers.
use crate::error::DatagovError;
use crate::format::{format_name, Format};
use crate::text::{
    chars_of, concat3, decimal, decimal_string, lemma_decimal_injective, lemma_decimal_len,
    push_char, str_eq,
};
use vstd::prelude::*;
use vstd::set_lib::{lemma_len_subset, lemma_int_range, lemma_map_size, set_int_range};

verus! {

/// An ASCII letter or digit.
pub open spec fn is_alnum(c: char) -> bool {
    ('0' <= c && c <= '9') || ('a' <= c && c <= 'z') || ('A' <= c && c <= 'Z')
}

/// Every character that is not an ASCII letter or digit becomes `_`.
pub open spec fn underscore_non_alnum(s: Seq<char>) -> Seq<char> {
    s.map_values(|c: char| if is_alnum(c) { c } else { '_' })
}

/// The sanitizing rule: non-alphanumerics become `_`; an empty result
/// becomes `t`; a result starting with a digit is prefixed with `t_`.
pub open spec fn sanitized(stem: Seq<char>) -> Seq<char> {
    let m = underscore_non_alnum(stem);
    let m2 = if m.len() == 0 { seq!['t'] } else { m };
    if '0' <= m2[0] && m2[0] <= '9' {
        seq!['t', '_'] + m2
    } else {
        m2
    }
}

/// A valid unquoted SQL identifier in the sense used here: non-empty, only
/// ASCII letters, digits and `_`, not starting with a digit.
pub open spec fn is_plain_identifier(s: Seq<char>) -> bool {
    &&& s.len() > 0
    &&& forall|i: int| 0 <= i < s.len() ==> is_alnum(s[i]) || s[i] == '_'
    &&& !('0' <= s[0] && s[0] <= '9')
}

/// Turn a file stem into a valid, unquoted SQL identifier.
pub fn sanitize_table_name(stem: &str) -> (r: String)
    ensures
        r@ == sanitized(stem@),
{
    let cs = chars_of(stem);
    let mut m: Vec<char> = Vec::new();
    let mut i: usize = 0;
    while i < cs.len()
        invariant
            cs@ == stem@,
            i <= cs.len(),
            m@ == underscore_non_alnum(stem@).take(i as int),
        decreases cs.len() - i,
    {
        let c = cs[i];
        if ('0' <= c && c <= '9') || ('a' <= c && c <= 'z') || ('A' <= c && c <= 'Z') {
            m.push(c);
        } else {
            m.push('_');
        }
        i = i + 1;
        assert(m@ =~= underscore_non_alnum(stem@).take(i as int));
    }
    assert(m@ =~= underscore_non_alnum(stem@));
    if m.len() == 0 {
        m.push('t');
    }
    let mut r = String::new();
    if '0' <= m[0] && m[0] <= '9' {
        push_char(&mut r, 't');
        push_char(&mut r, '_');
    }
    let mut k: usize = 0;
    let ghost start = r@;
    while k < m.len()
        invariant
            k <= m.len(),
            r@ == start + m@.take(k as int),
        decreases m.len() - k,
    {
        push_char(&mut r, m[k]);
        k = k + 1;
        assert(r@ =~= start + m@.take(k as int));
    }
    assert(m@.take(m.len() as int) =~= m@);
    assert(r@ =~= sanitized(stem@));
    r
}

/// Every sanitized name is a plain SQL identifier.
pub proof fn lemma_sanitized_is_identifier(stem: Seq<char>)
    ensures
        is_plain_identifier(sanitized(stem)),
{
    let m = underscore_non_alnum(stem);
    let m2 = if m.len() == 0 { seq!['t'] } else { m };
    assert forall|i: int| 0 <= i < m2.len() implies is_alnum(m2[i]) || m2[i] == '_' by {}
    if '0' <= m2[0] && m2[0] <= '9' {
        let r = seq!['t', '_'] + m2;
        assert forall|i: int| 0 <= i < r.len() implies is_alnum(r[i]) || r[i] == '_' by {
            if i >= 2 {
                assert(r[i] == m2[i - 2]);
            }
        }
    }
}

/// Sanitizing a name that is already a plain identifier leaves it unchanged.
pub proof fn lemma_sanitize_identifier_fixed(s: Seq<char>)
    requires
        is_plain_identifier(s),
    ensures
        sanitized(s) == s,
{
    assert(underscore_non_alnum(s) =~= s);
}

/// The `k`-th name tried for a base name: the base itself for `k <= 1`, else
/// the base followed by `_` and `k`.
pub open spec fn table_candidate(base: Seq<char>, k: int) -> Seq<char> {
    if k <= 1 {
        base
    } else {
        base + seq!['_'] + decimal(k as nat)
    }
}

/// The names in `used`, as character sequences.
pub open spec fn names(used: Seq<String>) -> Seq<Seq<char>> {
    used.map_values(|s: String| s@)
}

/// The set of names in `used`.
pub open spec fn name_set(used: Seq<String>) -> Set<Seq<char>> {
    names(used).to_set()
}

proof fn lemma_candidate_injective(base: Seq<char>, j: int, k: int)
    requires
        1 <= j,
        1 <= k,
        table_candidate(base, j) == table_candidate(base, k),
    ensures
        j == k,
{
    if j >= 2 && k >= 2 {
        let a = table_candidate(base, j);
        let b = table_candidate(base, k);
        lemma_decimal_len(j as nat);
        lemma_decimal_len(k as nat);
        assert(a.skip(base.len() as int + 1) == b.skip(base.len() as int + 1));
        assert(a.skip(base.len() as int + 1) =~= decimal(j as nat));
        assert(b.skip(base.len() as int + 1) =~= decimal(k as nat));
        lemma_decimal_injective(j as nat, k as nat);
    } else if j >= 2 {
        lemma_decimal_len(j as nat);
    } else if k >= 2 {
        lemma_decimal_len(k as nat);
    }
}

/// Pigeonhole: if the first `n` candidate names are all in `used`, there are
/// at least `n` names in use.
proof fn lemma_candidates_bound(base: Seq<char>, used: Seq<String>, n: int)
    requires
        0 <= n,
        forall|k: int| 1 <= k <= n ==> name_set(used).contains(#[trigger] table_candidate(base, k)),
    ensures
        n <= used.len(),
{
    let f = |k: int| table_candidate(base, k);
    let dom = set_int_range(1, n + 1);
    lemma_int_range(1, n + 1);
    assert forall|x: int, y: int| dom.contains(x) && dom.contains(y) && f(x) == f(y) implies x == y by {
        lemma_candidate_injective(base, x, y);
    }
    let img = dom.map(f);
    lemma_map_size(dom, img, f);
    assert(img.subset_of(name_set(used))) by {
        assert forall|s: Seq<char>| img.contains(s) implies name_set(used).contains(s) by {
            let k = choose|k: int| dom.contains(k) && f(k) == s;
            assert(name_set(used).contains(table_candidate(base, k)));
        }
    }
    names(used).lemma_cardinality_of_set();
    lemma_len_subset(img, name_set(used));
}

/// Whether some name in `used` equals `name`.
pub fn name_in_use(used: &[String], name: &str) -> (r: bool)
    ensures
        r == name_set(used@).contains(name@),
{
    let mut i: usize = 0;
    while i < used.len()
        invariant
            i <= used.len(),
            forall|k: int| 0 <= k < i ==> used@[k]@ != name@,
        decreases used.len() - i,
    {
        if str_eq(used[i].as_str(), name) {
            assert(names(used@)[i as int] == name@);
            return true;
        }
        i = i + 1;
    }
    assert(!name_set(used@).contains(name@)) by {
        if name_set(used@).contains(name@) {
            let k = choose|k: int|
                0 <= k < used@.len() && #[trigger] names(used@)[k] == name@;
            assert(used@[k]@ == name@);
        }
    }
    false
}

/// The de-duplicated table name for a file stem: the sanitized stem, or,
/// when that is taken, the sanitized stem followed by `_2`, `_3`, ... —
/// the first candidate not in `used`.
pub fn unique_table_name(stem: &str, used: &[String]) -> (r: String)
    requires
        used@.len() <= isize::MAX,
    ensures
        !name_set(used@).contains(r@),
        exists|k: int|
            1 <= k && r@ == table_candidate(sanitized(stem@), k) && forall|j: int|
                1 <= j < k ==> name_set(used@).contains(#[trigger] table_candidate(
                    sanitized(stem@),
                    j,
                )),
{
    let base = sanitize_table_name(stem);
    let ghost b = base@;
    let mut name = base.clone();
    let mut suffix: usize = 2;
    assert(name@ == table_candidate(b, 1));
    while name_in_use(used, name.as_str())
        invariant
            used@.len() <= isize::MAX,
            b == sanitized(stem@),
            base@ == b,
            2 <= suffix,
            name@ == table_candidate(b, suffix - 1),
            forall|j: int| 1 <= j < suffix - 1 ==> name_set(used@).contains(
                #[trigger] table_candidate(b, j),
            ),
        decreases used.len() + 2 - suffix,
    {
        proof {
            assert(name_set(used@).contains(table_candidate(b, suffix - 1)));
            lemma_candidates_bound(b, used@, suffix - 1);
        }
        let digits = decimal_string(suffix as u64);
        name = concat3(base.as_str(), "_", digits.as_str());
        proof {
            reveal_strlit("_");
            assert(name@ =~= table_candidate(b, suffix as int));
        }
        suffix = suffix + 1;
    }
    name
}

/// Only CSV and Parquet files are registered as query tables; any other
/// format is unsupported input naming the file and its format.
pub fn check_query_format(path: &str, format: Format) -> (r: Result<(), DatagovError>)
    ensures
        match format {
            Format::Csv | Format::Parquet => r is Ok,
            _ => r matches Err(e) && e is UnsupportedInput && e.spec_message() == "'"@ + path@
                + "' has format '"@ + format_name(format)
                + "', but query/profile support only CSV and Parquet"@,
        },
{
    match format {
        Format::Csv | Format::Parquet => Ok(()),
        _ => {
            let mut message = concat3("'", path, "' has format '");
            message.append(format.as_str());
            message.append("', but query/profile support only CSV and Parquet");
            Err(
                DatagovError::unsupported_input(
                    message.as_str(),
                    "convert the file to CSV or Parquet, or use 'datagov inspect' for other formats",
                ),
            )
        },
    }
}

} // verus!
