//! The sensitive-column-name heuristic: a case-insensitive substring match
//! against a short list of name fragments that typically identify direct
//! identifiers.
use crate::text::{chars_of, contains, contains_str, lower, to_ascii_lowercase};
use vstd::prelude::*;

verus! {

/// The fragment of `name` (already ASCII-lowercased) that marks it
/// sensitive, checking the fragments in their documented order: `email`,
/// `phone`, `ssn`, `social_security`, `credit_card`, `card_number`,
/// `password`, `secret`.
pub open spec fn fragment_in(l: Seq<char>) -> Option<Seq<char>> {
    if contains(l, "email"@) {
        Some("email"@)
    } else if contains(l, "phone"@) {
        Some("phone"@)
    } else if contains(l, "ssn"@) {
        Some("ssn"@)
    } else if contains(l, "social_security"@) {
        Some("social_security"@)
    } else if contains(l, "credit_card"@) {
        Some("credit_card"@)
    } else if contains(l, "card_number"@) {
        Some("card_number"@)
    } else if contains(l, "password"@) {
        Some("password"@)
    } else if contains(l, "secret"@) {
        Some("secret"@)
    } else {
        None
    }
}

/// The sensitive fragment a column name matches, ignoring ASCII case.
pub open spec fn sensitive_match(name: Seq<char>) -> Option<Seq<char>> {
    fragment_in(lower(name))
}

/// Case-insensitive substring check on a column name, returning the first
/// fragment (in list order) it contains, or `None` when it contains none.
pub fn heuristically_sensitive_match(column_name: &str) -> (r: Option<&'static str>)
    ensures
        match r {
            Some(f) => sensitive_match(column_name@) == Some(f@),
            None => sensitive_match(column_name@) is None,
        },
{
    let lowered = to_ascii_lowercase(column_name);
    let l = chars_of(lowered.as_str());
    if contains_str(&l, "email") {
        Some("email")
    } else if contains_str(&l, "phone") {
        Some("phone")
    } else if contains_str(&l, "ssn") {
        Some("ssn")
    } else if contains_str(&l, "social_security") {
        Some("social_security")
    } else if contains_str(&l, "credit_card") {
        Some("credit_card")
    } else if contains_str(&l, "card_number") {
        Some("card_number")
    } else if contains_str(&l, "password") {
        Some("password")
    } else if contains_str(&l, "secret") {
        Some("secret")
    } else {
        None
    }
}

/// `true` if `column_name` contains any known sensitive fragment,
/// regardless of case.
pub fn is_heuristically_sensitive(column_name: &str) -> (r: bool)
    ensures
        r == (sensitive_match(column_name@) is Some),
{
    heuristically_sensitive_match(column_name).is_some()
}

/// ASCII lowercasing is idempotent.
pub proof fn lemma_lower_idempotent(s: Seq<char>)
    ensures
        lower(lower(s)) == lower(s),
{
    assert(lower(lower(s)) =~= lower(s));
}

/// The heuristic ignores ASCII case: two names that agree after
/// lowercasing match the same fragment.
pub proof fn lemma_match_ignores_case(a: Seq<char>, b: Seq<char>)
    requires
        lower(a) == lower(b),
    ensures
        sensitive_match(a) == sensitive_match(b),
{
}

/// A matched fragment really occurs in the lowercased name.
pub proof fn lemma_match_occurs(name: Seq<char>)
    ensures
        sensitive_match(name) matches Some(f) ==> contains(lower(name), f),
{
}

} // verus!
