//! File-name and extension extraction for `/`-separated paths, following the
//! standard library's `Path::file_name` and `Path::extension` rules.
use crate::text::{chars_of, string_from_chars};
use vstd::prelude::*;

verus! {

/// Index of the last `c` in `s`, or -1 when there is none.
pub open spec fn last_index_of(s: Seq<char>, c: char) -> int
    decreases s.len(),
{
    if s.len() == 0 {
        -1
    } else if s.last() == c {
        s.len() - 1
    } else {
        last_index_of(s.drop_last(), c)
    }
}

/// The final normal component of a path: trailing `/` and `/.` are
/// ignored; `.`-only paths, the root, and paths ending in `..` have none.
pub open spec fn file_name(p: Seq<char>) -> Option<Seq<char>>
    decreases p.len(),
{
    if p.len() == 0 {
        None
    } else if p.last() == '/' {
        file_name(p.drop_last())
    } else if p.len() >= 2 && p.last() == '.' && p[p.len() - 2] == '/' {
        file_name(p.take(p.len() - 2))
    } else if p == seq!['.'] {
        None
    } else {
        let seg = p.skip(last_index_of(p, '/') + 1);
        if seg == seq!['.', '.'] {
            None
        } else {
            Some(seg)
        }
    }
}

/// The extension of a file name: the text after its last `.`, unless the
/// name has no `.` or its only `.` is the first character.
pub open spec fn name_extension(name: Seq<char>) -> Option<Seq<char>> {
    let k = last_index_of(name, '.');
    if k <= 0 {
        None
    } else {
        Some(name.skip(k + 1))
    }
}

/// The extension of a path's file name.
pub open spec fn path_extension(p: Seq<char>) -> Option<Seq<char>> {
    match file_name(p) {
        Some(name) => name_extension(name),
        None => None,
    }
}

proof fn lemma_last_index_bounds(s: Seq<char>, c: char)
    ensures
        -1 <= last_index_of(s, c) < s.len(),
        last_index_of(s, c) >= 0 ==> s[last_index_of(s, c)] == c,
        forall|j: int| last_index_of(s, c) < j < s.len() ==> s[j] != c,
    decreases s.len(),
{
    if s.len() > 0 {
        lemma_last_index_bounds(s.drop_last(), c);
        assert forall|j: int| last_index_of(s, c) < j < s.len() implies s[j] != c by {
            if j < s.len() - 1 {
                assert(s.drop_last()[j] == s[j]);
            }
        }
    }
}

fn last_index_exec(s: &[char], end: usize, c: char) -> (r: Option<usize>)
    requires
        end <= s.len(),
    ensures
        match r {
            Some(i) => i < end && last_index_of(s@.take(end as int), c) == i as int,
            None => last_index_of(s@.take(end as int), c) == -1,
        },
{
    let mut i: usize = end;
    while i > 0
        invariant
            i <= end <= s.len(),
            last_index_of(s@.take(end as int), c) == last_index_of(s@.take(i as int), c),
        decreases i,
    {
        assert(s@.take(i as int).drop_last() =~= s@.take(i - 1));
        if s[i - 1] == c {
            return Some(i - 1);
        }
        i = i - 1;
    }
    None
}

/// The extension of the file name of `p`, if any.
pub fn extension_of(p: &str) -> (r: Option<String>)
    ensures
        match r {
            Some(e) => path_extension(p@) == Some(e@),
            None => path_extension(p@) is None,
        },
{
    let cs = chars_of(p);
    let mut end: usize = cs.len();
    assert(cs@.take(end as int) =~= cs@);
    loop
        invariant
            end <= cs.len(),
            cs@ == p@,
            file_name(p@) == file_name(cs@.take(end as int)),
        ensures
            0 < end <= cs.len(),
            cs@ == p@,
            file_name(p@) == file_name(cs@.take(end as int)),
            cs@[end - 1] != '/',
            !(end >= 2 && cs@[end - 1] == '.' && cs@[end - 2] == '/'),
        decreases end,
    {
        let ghost t = cs@.take(end as int);
        if end == 0 {
            return None;
        }
        if cs[end - 1] == '/' {
            assert(t.drop_last() =~= cs@.take(end - 1));
            end = end - 1;
        } else if end >= 2 && cs[end - 1] == '.' && cs[end - 2] == '/' {
            assert(t.take(t.len() - 2) =~= cs@.take(end - 2));
            end = end - 2;
        } else {
            break;
        }
    }
    let t = Ghost(cs@.take(end as int));
    if end == 1 && cs[0] == '.' {
        assert(t@ =~= seq!['.']);
        return None;
    }
    assert(t@ != seq!['.']);
    let start: usize = match last_index_exec(&cs, end, '/') {
        Some(i) => i + 1,
        None => 0,
    };
    proof {
        lemma_last_index_bounds(t@, '/');
    }
    let seg = Ghost(t@.skip(start as int));
    if end - start == 2 && cs[start] == '.' && cs[start + 1] == '.' {
        assert(seg@ =~= seq!['.', '.']);
        return None;
    }
    proof {
        if seg@.len() == 2 {
            assert(seg@[0] == cs@[start as int]);
            assert(seg@[1] == cs@[start + 1]);
        }
    }
    assert(seg@ != seq!['.', '.']);
    assert(file_name(p@) == Some(seg@));
    // the extension of the segment
    let dot = last_index_exec(&cs, end, '.');
    match dot {
        Some(k) if k > start => {
            proof {
                lemma_last_index_bounds(t@, '.');
                lemma_last_index_bounds(seg@, '.');
                assert forall|j: int| 0 <= j < seg@.len() implies seg@[j] == t@[start + j] by {}
                assert(last_index_of(seg@, '.') == k - start) by {
                    lemma_last_index_unique(seg@, '.', k - start);
                }
            }
            let ext = string_from_chars(&cs.as_slice()[k + 1..end]);
            assert(ext@ =~= seg@.skip(k - start + 1));
            Some(ext)
        },
        _ => {
            proof {
                lemma_last_index_bounds(t@, '.');
                lemma_last_index_bounds(seg@, '.');
                if last_index_of(seg@, '.') > 0 {
                    let q = last_index_of(seg@, '.');
                    assert(t@[start + q] == '.');
                }
            }
            None
        },
    }
}

proof fn lemma_last_index_unique(s: Seq<char>, c: char, k: int)
    requires
        0 <= k < s.len(),
        s[k] == c,
        forall|j: int| k < j < s.len() ==> s[j] != c,
    ensures
        last_index_of(s, c) == k,
    decreases s.len(),
{
    if s.last() != c {
        lemma_last_index_unique(s.drop_last(), c, k);
    }
}

} // verus!
