//! Which text values read as booleans, 64-bit integers and floating-point
//! numbers, by the grammars the standard library documents for
//! `bool::from_str`, `i64::from_str` and `f64::from_str`. These decide how
//! a delimited column's type is narrowed.
use crate::text::{chars_of, lower, lower_char_exec};
use vstd::prelude::*;

verus! {

/// An ASCII decimal digit.
pub open spec fn is_digit(c: char) -> bool {
    '0' <= c && c <= '9'
}

/// Every character is a decimal digit.
pub open spec fn all_digits(s: Seq<char>) -> bool {
    forall|i: int| 0 <= i < s.len() ==> #[trigger] is_digit(s[i])
}

/// The value of a run of decimal digits.
pub open spec fn digits_value(s: Seq<char>) -> nat
    decreases s.len(),
{
    if s.len() == 0 {
        0
    } else {
        digits_value(s.drop_last()) * 10 + ((s.last() as int - '0' as int) as nat)
    }
}

/// `s` without one leading `+` or `-`.
pub open spec fn unsigned_part(s: Seq<char>) -> Seq<char> {
    if s.len() > 0 && (s[0] == '+' || s[0] == '-') {
        s.skip(1)
    } else {
        s
    }
}

/// `s` starts with `-`.
pub open spec fn negative(s: Seq<char>) -> bool {
    s.len() > 0 && s[0] == '-'
}

/// `bool::from_str` accepts exactly `true` and `false`.
pub open spec fn bool_literal(s: Seq<char>) -> Option<bool> {
    if s == "true"@ {
        Some(true)
    } else if s == "false"@ {
        Some(false)
    } else {
        None
    }
}

/// `i64::from_str`: an optional sign, then one or more digits, whose value
/// fits in 64 signed bits.
pub open spec fn i64_literal(s: Seq<char>) -> Option<int> {
    let u = unsigned_part(s);
    if u.len() == 0 || !all_digits(u) {
        None
    } else if negative(s) {
        if digits_value(u) <= 0x8000_0000_0000_0000 {
            Some(-(digits_value(u) as int))
        } else {
            None
        }
    } else if digits_value(u) <= 0x7fff_ffff_ffff_ffff {
        Some(digits_value(u) as int)
    } else {
        None
    }
}

/// The position of the first `c` in `s`, or its length.
pub open spec fn index_of(s: Seq<char>, c: char) -> int
    decreases s.len(),
{
    if s.len() == 0 {
        0
    } else if s[0] == c {
        0
    } else {
        1 + index_of(s.skip(1), c)
    }
}

/// `Digit+ | Digit+ '.' Digit* | Digit* '.' Digit+`.
pub open spec fn decimal_number(s: Seq<char>) -> bool {
    let k = index_of(s, '.');
    if k == s.len() {
        s.len() >= 1 && all_digits(s)
    } else {
        all_digits(s.take(k)) && all_digits(s.skip(k + 1)) && (k > 0 || s.len() > k + 1)
    }
}

/// `Sign? Digit+`.
pub open spec fn exponent(s: Seq<char>) -> bool {
    unsigned_part(s).len() >= 1 && all_digits(unsigned_part(s))
}

/// `Number ::= DecimalNumber ('e' Exponent)?` (already lowercased).
pub open spec fn float_number(s: Seq<char>) -> bool {
    let e = index_of(s, 'e');
    if e == s.len() {
        decimal_number(s)
    } else {
        decimal_number(s.take(e)) && exponent(s.skip(e + 1))
    }
}

/// `f64::from_str`: once lowercased, an optional sign followed by `inf`,
/// `infinity`, `nan`, or a decimal number with an optional exponent.
pub open spec fn f64_literal(s: Seq<char>) -> bool {
    let u = unsigned_part(lower(s));
    u == "inf"@ || u == "infinity"@ || u == "nan"@ || float_number(u)
}

/// `index_of` finds the first occurrence, or reports the length.
pub proof fn lemma_index_of_pub(s: Seq<char>, c: char)
    ensures
        0 <= index_of(s, c) <= s.len(),
        index_of(s, c) < s.len() ==> s[index_of(s, c)] == c,
        forall|i: int| 0 <= i < index_of(s, c) ==> s[i] != c,
{
    lemma_index_of(s, c);
}

proof fn lemma_index_of(s: Seq<char>, c: char)
    ensures
        0 <= index_of(s, c) <= s.len(),
        index_of(s, c) < s.len() ==> s[index_of(s, c)] == c,
        forall|i: int| 0 <= i < index_of(s, c) ==> s[i] != c,
    decreases s.len(),
{
    if s.len() > 0 && s[0] != c {
        lemma_index_of(s.skip(1), c);
        assert forall|i: int| 0 <= i < index_of(s, c) implies s[i] != c by {
            if i > 0 {
                assert(s[i] == s.skip(1)[i - 1]);
            }
        }
    }
}

fn find_char(s: &[char], from: usize, c: char) -> (k: usize)
    requires
        from <= s@.len(),
    ensures
        k == from + index_of(s@.skip(from as int), c),
        from <= k <= s@.len(),
{
    proof {
        lemma_index_of(s@.skip(from as int), c);
    }
    let mut k = from;
    while k < s.len()
        invariant
            from <= k <= s@.len(),
            forall|i: int| from <= i < k ==> s@[i] != c,
            0 <= index_of(s@.skip(from as int), c) <= s@.len() - from,
            index_of(s@.skip(from as int), c) < s@.len() - from ==> s@.skip(from as int)[index_of(
                s@.skip(from as int),
                c,
            )] == c,
            forall|i: int| 0 <= i < index_of(s@.skip(from as int), c) ==> s@.skip(from as int)[i] != c,
        decreases s.len() - k,
    {
        if s[k] == c {
            proof {
                let t = s@.skip(from as int);
                assert(t[k - from] == c);
                if index_of(t, c) > k - from {
                    assert(t[k - from] != c);
                }
                if index_of(t, c) < k - from {
                    assert(t[index_of(t, c)] == s@[from + index_of(t, c)]);
                }
            }
            return k;
        }
        k = k + 1;
    }
    proof {
        let t = s@.skip(from as int);
        if index_of(t, c) < k - from {
            assert(t[index_of(t, c)] == s@[from + index_of(t, c)]);
        }
    }
    k
}

/// The characters `s[from..to]` are all digits.
fn digits_between(s: &[char], from: usize, to: usize) -> (r: bool)
    requires
        from <= to <= s@.len(),
    ensures
        r == all_digits(s@.subrange(from as int, to as int)),
{
    let mut i = from;
    while i < to
        invariant
            from <= i <= to,
            to <= s@.len(),
            forall|j: int| from <= j < i ==> is_digit(s@[j]),
        decreases to - i,
    {
        if !(s[i] >= '0' && s[i] <= '9') {
            assert(!is_digit(s@.subrange(from as int, to as int)[i - from]));
            return false;
        }
        i = i + 1;
    }
    assert forall|j: int| 0 <= j < to - from implies #[trigger] is_digit(
        s@.subrange(from as int, to as int)[j],
    ) by {
        assert(s@.subrange(from as int, to as int)[j] == s@[from + j]);
    }
    true
}

/// Whether `text` reads as a boolean, and which.
pub fn parse_bool(text: &str) -> (r: Option<bool>)
    ensures
        r == bool_literal(text@),
{
    if crate::text::str_eq(text, "true") {
        Some(true)
    } else if crate::text::str_eq(text, "false") {
        Some(false)
    } else {
        None
    }
}

/// Whether `text` reads as a 64-bit signed integer, and its value.
pub fn parse_i64(text: &str) -> (r: Option<i64>)
    ensures
        match r {
            Some(v) => i64_literal(text@) == Some(v as int),
            None => i64_literal(text@) is None,
        },
{
    let s = chars_of(text);
    let n = s.len();
    let mut start: usize = 0;
    let mut neg = false;
    if n > 0 && (s[0] == '+' || s[0] == '-') {
        start = 1;
        neg = s[0] == '-';
    }
    let ghost u = unsigned_part(s@);
    assert(u == s@.subrange(start as int, n as int));
    if start == n {
        return None;
    }
    let limit: u128 = 0x8000_0000_0000_0000;
    let mut acc: u128 = 0;
    let mut i = start;
    while i < n
        invariant
            start <= i <= n,
            n == s@.len(),
            s@ == text@,
            u == unsigned_part(text@),
            neg == negative(text@),
            u.len() > 0,
            u == s@.subrange(start as int, n as int),
            limit == 0x8000_0000_0000_0000,
            all_digits(u.take(i - start)),
            acc == (if digits_value(u.take(i - start)) <= limit {
                digits_value(u.take(i - start)) as int
            } else {
                limit + 1
            }),
        decreases n - i,
    {
        let c = s[i];
        if !(c >= '0' && c <= '9') {
            assert(u[i - start] == c);
            assert(!is_digit(u[i - start]));
            assert(!all_digits(u));
            return None;
        }
        let d = ((c as u32) - ('0' as u32)) as u128;
        proof {
            let p = u.take(i - start);
            let q = u.take(i - start + 1);
            assert(q.drop_last() == p);
            assert(q.last() == c);
            assert(digits_value(q) == digits_value(p) * 10 + d);
            assert(all_digits(q)) by {
                assert forall|j: int| 0 <= j < q.len() implies #[trigger] is_digit(q[j]) by {
                    if j < p.len() {
                        assert(q[j] == p[j]);
                    }
                }
            }
            if digits_value(p) > limit {
                assert(digits_value(p) * 10 + d > limit) by (nonlinear_arith)
                    requires
                        digits_value(p) > limit,
                        d >= 0,
                ;
            }
        }
        if acc <= limit {
            acc = acc * 10 + d;
            if acc > limit {
                acc = limit + 1;
            }
        }
        i = i + 1;
    }
    assert(u.take(n - start) == u);
    if neg {
        if acc <= limit {
            if acc == limit {
                Some(i64::MIN)
            } else {
                Some(-(acc as i64))
            }
        } else {
            None
        }
    } else if acc <= limit - 1 {
        Some(acc as i64)
    } else {
        None
    }
}

fn lower_chars(text: &str) -> (s: Vec<char>)
    ensures
        s@ == lower(text@),
{
    let raw = chars_of(text);
    let mut s: Vec<char> = Vec::new();
    let mut i: usize = 0;
    while i < raw.len()
        invariant
            i <= raw@.len(),
            raw@ == text@,
            s@ == lower(text@).take(i as int),
        decreases raw.len() - i,
    {
        s.push(lower_char_exec(raw[i]));
        assert(s@ =~= lower(text@).take(i + 1));
        i = i + 1;
    }
    assert(s@ =~= lower(text@));
    s
}

/// Whether `s[from..]` is a decimal number with an optional exponent.
fn is_float_number(s: &[char], start: usize) -> (r: bool)
    requires
        start <= s@.len(),
    ensures
        r == float_number(s@.skip(start as int)),
{
    let ghost u = s@.skip(start as int);
    let n = s.len();
    let e = find_char(s, start, 'e');
    let dot = find_char_before(s, start, e, '.');
    let number_ok = if dot == e {
        e > start && digits_between(s, start, e)
    } else {
        digits_between(s, start, dot) && digits_between(s, dot + 1, e) && (dot > start || e > dot
            + 1)
    };
    proof {
        let b = u.take(e - start);
        assert(b =~= s@.subrange(start as int, e as int));
        lemma_index_of(u, 'e');
        assert(index_of(b, '.') == dot - start);
        if dot != e {
            assert(b.take(dot - start) =~= s@.subrange(start as int, dot as int));
            assert(b.skip(dot - start + 1) =~= s@.subrange(dot + 1, e as int));
        }
        if e == n {
            assert(b =~= u);
        }
    }
    if e == n {
        return number_ok;
    }
    if !number_ok {
        return false;
    }
    let exp_start: usize = if e + 1 < n && (s[e + 1] == '+' || s[e + 1] == '-') {
        e + 2
    } else {
        e + 1
    };
    let exp_ok = exp_start < n && digits_between(s, exp_start, n);
    proof {
        let x = u.skip(e - start + 1);
        assert(x =~= s@.subrange(e + 1, n as int));
        assert(unsigned_part(x) =~= s@.subrange(exp_start as int, n as int));
    }
    exp_ok
}

/// Whether `s[start..]` is one of the words `inf`, `nan`, `infinity`.
fn is_special_float(s: &[char], start: usize) -> (r: bool)
    requires
        start <= s@.len(),
    ensures
        r == (s@.skip(start as int) == "inf"@ || s@.skip(start as int) == "infinity"@ || s@.skip(
            start as int,
        ) == "nan"@),
{
    let ghost u = s@.skip(start as int);
    let m = s.len() - start;
    proof {
        reveal_strlit("inf");
        reveal_strlit("nan");
        reveal_strlit("infinity");
        assert(u.len() == m);
        assert("inf"@.len() == 3 && "nan"@.len() == 3 && "infinity"@.len() == 8);
    }
    if m == 3 {
        let a = s[start];
        let b = s[start + 1];
        let c = s[start + 2];
        assert(u[0] == a && u[1] == b && u[2] == c);
        if a == 'i' && b == 'n' && c == 'f' {
            assert(u =~= "inf"@);
            return true;
        }
        if a == 'n' && b == 'a' && c == 'n' {
            assert(u =~= "nan"@);
            return true;
        }
        return false;
    }
    if m == 8 {
        let ok = s[start] == 'i' && s[start + 1] == 'n' && s[start + 2] == 'f' && s[start + 3] == 'i'
            && s[start + 4] == 'n' && s[start + 5] == 'i' && s[start + 6] == 't' && s[start + 7]
            == 'y';
        assert(u[0] == s@[start as int] && u[1] == s@[start + 1] && u[2] == s@[start + 2]);
        assert(u[3] == s@[start + 3] && u[4] == s@[start + 4] && u[5] == s@[start + 5]);
        assert(u[6] == s@[start + 6] && u[7] == s@[start + 7]);
        if ok {
            assert(u =~= "infinity"@);
        } else {
            assert(u != "infinity"@) by {
                if u == "infinity"@ {
                    assert(u[0] == 'i' && u[1] == 'n' && u[2] == 'f' && u[3] == 'i');
                    assert(u[4] == 'n' && u[5] == 'i' && u[6] == 't' && u[7] == 'y');
                }
            }
        }
        return ok;
    }
    false
}

/// Whether `text` reads as a floating-point number.
pub fn is_f64_literal(text: &str) -> (r: bool)
    ensures
        r == f64_literal(text@),
{
    let s = lower_chars(text);
    let n = s.len();
    let start: usize = if n > 0 && (s[0] == '+' || s[0] == '-') {
        1
    } else {
        0
    };
    assert(unsigned_part(s@) =~= s@.skip(start as int));
    is_special_float(&s, start) || is_float_number(&s, start)
}

/// The position of the first `c` in `s[from..to]`, or `to`.
fn find_char_before(s: &[char], from: usize, to: usize, c: char) -> (k: usize)
    requires
        from <= to <= s@.len(),
    ensures
        k == from + index_of(s@.subrange(from as int, to as int), c),
        from <= k <= to,
{
    let ghost t = s@.subrange(from as int, to as int);
    proof {
        lemma_index_of(t, c);
    }
    let mut k = from;
    while k < to
        invariant
            from <= k <= to,
            to <= s@.len(),
            t == s@.subrange(from as int, to as int),
            forall|i: int| from <= i < k ==> s@[i] != c,
            0 <= index_of(t, c) <= t.len(),
            index_of(t, c) < t.len() ==> t[index_of(t, c)] == c,
            forall|i: int| 0 <= i < index_of(t, c) ==> t[i] != c,
        decreases to - k,
    {
        if s[k] == c {
            proof {
                assert(t[k - from] == c);
                if index_of(t, c) < k - from {
                    assert(t[index_of(t, c)] == s@[from + index_of(t, c)]);
                }
            }
            return k;
        }
        k = k + 1;
    }
    proof {
        if index_of(t, c) < k - from {
            assert(t[index_of(t, c)] == s@[from + index_of(t, c)]);
        }
    }
    k
}

} // verus!
