//! The single masking implementation for sensitive values.
use crate::text::{chars_of, contains, occurs_at, push_char, string_from_chars};
use vstd::prelude::*;

verus! {

/// The characters that stand in for a fully masked short value.
pub open spec fn full_mask() -> Seq<char> {
    seq!['●', '●', '●']
}

/// The masking rule: values of 8 or more characters keep their first two and
/// last two characters around an ellipsis; shorter values become `●●●`.
pub open spec fn mask_of(v: Seq<char>) -> Seq<char> {
    if v.len() < 8 {
        full_mask()
    } else {
        v.take(2) + seq!['…'] + v.skip(v.len() - 2)
    }
}

/// A sensitive string that can only ever be observed in masked form. There
/// is no accessor for the inner value.
#[derive(Clone)]
pub struct Masked {
    value: String,
}

impl Masked {
    /// The wrapped value (visible to specifications only).
    pub closed spec fn raw(&self) -> Seq<char> {
        self.value@
    }

    /// Wrap a sensitive value.
    pub fn new(value: &str) -> (m: Self)
        ensures
            m.raw() == value@,
    {
        Masked { value: String::from_str(value) }
    }

    /// The masked rendering of the wrapped value.
    pub fn masked(&self) -> (s: String)
        ensures
            s@ == mask_of(self.raw()),
    {
        let chars = chars_of(self.value.as_str());
        let len = chars.len();
        if len < 8 {
            let s = string_from_chars(&['●', '●', '●']);
            s
        } else {
            let mut s = String::new();
            push_char(&mut s, chars[0]);
            push_char(&mut s, chars[1]);
            push_char(&mut s, '…');
            push_char(&mut s, chars[len - 2]);
            push_char(&mut s, chars[len - 1]);
            assert(s@ =~= mask_of(self.raw()));
            s
        }
    }

    /// The display rendering: the masked form, never the value.
    pub fn to_string(&self) -> (s: String)
        ensures
            s@ == mask_of(self.raw()),
    {
        self.masked()
    }
}

/// A character as it appears inside a quoted debug rendering: quotes,
/// backslashes and the common control characters escaped.
pub open spec fn escaped_char(c: char) -> Seq<char> {
    if c == '"' {
        seq!['\\', '"']
    } else if c == '\\' {
        seq!['\\', '\\']
    } else if c == '\n' {
        seq!['\\', 'n']
    } else if c == '\r' {
        seq!['\\', 'r']
    } else if c == '\t' {
        seq!['\\', 't']
    } else if c == '\0' {
        seq!['\\', '0']
    } else {
        seq![c]
    }
}

/// A string with each character escaped for a debug rendering.
pub open spec fn escaped(s: Seq<char>) -> Seq<char>
    decreases s.len(),
{
    if s.len() == 0 {
        Seq::empty()
    } else {
        escaped(s.drop_last()) + escaped_char(s.last())
    }
}

impl Masked {
    /// The debug rendering, `Masked("…")` around the masked form: it shows
    /// the masked form only, never the value.
    pub fn debug_string(&self) -> (s: String)
        ensures
            s@ == "Masked(\""@ + escaped(mask_of(self.raw())) + "\")"@,
    {
        let m = self.masked();
        let cs = chars_of(m.as_str());
        let mut s = String::from_str("Masked(\"");
        let ghost prefix = s@;
        let mut i: usize = 0;
        while i < cs.len()
            invariant
                i <= cs@.len(),
                cs@ == mask_of(self.raw()),
                s@ == prefix + escaped(cs@.take(i as int)),
            decreases cs.len() - i,
        {
            let c = cs[i];
            if c == '"' {
                push_char(&mut s, '\\');
                push_char(&mut s, '"');
            } else if c == '\\' {
                push_char(&mut s, '\\');
                push_char(&mut s, '\\');
            } else if c == '\n' {
                push_char(&mut s, '\\');
                push_char(&mut s, 'n');
            } else if c == '\r' {
                push_char(&mut s, '\\');
                push_char(&mut s, 'r');
            } else if c == '\t' {
                push_char(&mut s, '\\');
                push_char(&mut s, 't');
            } else if c == '\0' {
                push_char(&mut s, '\\');
                push_char(&mut s, '0');
            } else {
                push_char(&mut s, c);
            }
            proof {
                assert(cs@.take(i + 1).drop_last() =~= cs@.take(i as int));
                assert(cs@.take(i + 1).last() == c);
                assert(s@ =~= prefix + escaped(cs@.take(i + 1)));
            }
            i = i + 1;
        }
        assert(cs@.take(i as int) =~= cs@);
        s.append("\")");
        s
    }
}

/// The masked form never contains the raw value, unless the raw value is
/// itself a piece of the short mask `●●●` (the empty string, `●`, `●●` or
/// `●●●`).
pub proof fn lemma_mask_never_reveals(v: Seq<char>)
    requires
        !contains(full_mask(), v),
    ensures
        !contains(mask_of(v), v),
{
    if v.len() >= 8 {
        assert(mask_of(v).len() == 5);
        assert forall|i: int| !occurs_at(mask_of(v), v, i) by {}
    }
}

/// A value of eight or more characters is never shown in full.
pub proof fn lemma_long_value_never_revealed(v: Seq<char>)
    requires
        v.len() >= 8,
    ensures
        !contains(mask_of(v), v),
        mask_of(v).len() == 5,
{
    assert forall|i: int| !occurs_at(mask_of(v), v, i) by {}
}

} // verus!
