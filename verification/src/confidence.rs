//! The PII confidence model. Confidences are kept in millionths (an integer
//! in `0..=1_000_000` stands for `0.0..=1.0`), the granularity to which a
//! reported confidence is rounded:
//!
//! `confidence = clamp(base + validator_bonus + context_bonus, 0, 1)`
//!
//! with `validator_bonus` = 0.10 when the recognizer has a validator and
//! every candidate in the column passed it, and `context_bonus` = 0.05 when
//! the column name contains one of the recognizer's context terms.
use vstd::prelude::*;

verus! {

/// One whole unit of confidence, in millionths.
pub const CONFIDENCE_SCALE: i64 = 1000000;

/// The bonus for a fully validated column, in millionths (0.10).
pub const VALIDATOR_BONUS: i64 = 100000;

/// The bonus for a column name that matches a context term, in millionths
/// (0.05).
pub const CONTEXT_BONUS: i64 = 50000;

/// `x` limited to the range `lo..=hi`.
pub open spec fn clamp(x: int, lo: int, hi: int) -> int {
    if x < lo {
        lo
    } else if x > hi {
        hi
    } else {
        x
    }
}

/// The documented confidence formula over millionths.
pub open spec fn confidence_spec(base: int, validator_ok: bool, context_ok: bool) -> int {
    clamp(
        base + (if validator_ok { VALIDATOR_BONUS as int } else { 0 }) + (if context_ok {
            CONTEXT_BONUS as int
        } else {
            0
        }),
        0,
        CONFIDENCE_SCALE as int,
    )
}

/// The final confidence of a finding, in millionths.
pub fn compute(base_confidence: i64, validator_ok: bool, context_ok: bool) -> (r: i64)
    ensures
        r == confidence_spec(base_confidence as int, validator_ok, context_ok),
        0 <= r <= CONFIDENCE_SCALE,
{
    let mut c: i128 = base_confidence as i128;
    if validator_ok {
        c = c + VALIDATOR_BONUS as i128;
    }
    if context_ok {
        c = c + CONTEXT_BONUS as i128;
    }
    if c < 0 {
        0
    } else if c > CONFIDENCE_SCALE as i128 {
        CONFIDENCE_SCALE
    } else {
        c as i64
    }
}

/// Earning a bonus never lowers the confidence.
pub proof fn lemma_bonuses_are_monotone(base: int, v1: bool, c1: bool, v2: bool, c2: bool)
    requires
        v1 ==> v2,
        c1 ==> c2,
    ensures
        confidence_spec(base, v1, c1) <= confidence_spec(base, v2, c2),
{
}

/// A base confidence within `0..=1` with no bonus is reported unchanged.
pub proof fn lemma_base_only_is_unchanged(base: int)
    requires
        0 <= base <= CONFIDENCE_SCALE,
    ensures
        confidence_spec(base, false, false) == base,
{
}

} // verus!
