//! The documented process exit-code contract.
use vstd::prelude::*;

verus! {

/// The documented exit-code table. New failure modes map to an existing
/// code or extend this table; the numbers never change.
#[derive(Debug, Clone, Copy, PartialEq, Eq, Hash, Structural)]
pub enum ExitCode {
    /// Success; no threshold violations.
    Success,
    /// Execution or internal error.
    Internal,
    /// Invalid arguments or configuration.
    InvalidArgs,
    /// Input not found or unreadable.
    InputNotFound,
    /// Unsupported input or dialect.
    UnsupportedInput,
    /// Quality threshold failed.
    QualityFailed,
    /// Policy threshold failed.
    PolicyFailed,
    /// PII threshold failed.
    PiiFailed,
    /// Schema validation failed.
    SchemaFailed,
    /// Lineage extraction incomplete beyond configured threshold.
    LineageIncomplete,
    /// Optional backend unavailable.
    BackendUnavailable,
    /// Authentication or authorization failure.
    AuthFailed,
    /// Plugin or model verification failed.
    VerificationFailed,
}

/// The number each exit code stands for.
pub open spec fn exit_code_value(code: ExitCode) -> i32 {
    match code {
        ExitCode::Success => 0,
        ExitCode::Internal => 1,
        ExitCode::InvalidArgs => 2,
        ExitCode::InputNotFound => 3,
        ExitCode::UnsupportedInput => 4,
        ExitCode::QualityFailed => 10,
        ExitCode::PolicyFailed => 11,
        ExitCode::PiiFailed => 12,
        ExitCode::SchemaFailed => 13,
        ExitCode::LineageIncomplete => 14,
        ExitCode::BackendUnavailable => 20,
        ExitCode::AuthFailed => 21,
        ExitCode::VerificationFailed => 22,
    }
}

impl ExitCode {
    /// The `i32` process exit code.
    pub fn code(self) -> (c: i32)
        ensures
            c == exit_code_value(self),
    {
        match self {
            ExitCode::Success => 0,
            ExitCode::Internal => 1,
            ExitCode::InvalidArgs => 2,
            ExitCode::InputNotFound => 3,
            ExitCode::UnsupportedInput => 4,
            ExitCode::QualityFailed => 10,
            ExitCode::PolicyFailed => 11,
            ExitCode::PiiFailed => 12,
            ExitCode::SchemaFailed => 13,
            ExitCode::LineageIncomplete => 14,
            ExitCode::BackendUnavailable => 20,
            ExitCode::AuthFailed => 21,
            ExitCode::VerificationFailed => 22,
        }
    }
}

/// Distinct exit codes are distinct numbers: the table is injective, so a
/// process exit status identifies its failure class.
pub proof fn lemma_exit_code_injective(a: ExitCode, b: ExitCode)
    ensures
        exit_code_value(a) == exit_code_value(b) ==> a == b,
{
}

} // verus!

verus! {

/// Only success exits 0; general failures (internal, invalid arguments,
/// input not found, unsupported input) exit 1 to 4 in that order; threshold
/// failures (quality, policy, PII, schema, lineage) exit 10 to 14; and
/// environment failures (backend, authentication, verification) exit 20
/// to 22.
pub proof fn lemma_exit_code_classes(c: ExitCode)
    ensures
        exit_code_value(c) == 0 <==> c == ExitCode::Success,
        exit_code_value(c) == 1 <==> c == ExitCode::Internal,
        exit_code_value(c) == 2 <==> c == ExitCode::InvalidArgs,
        exit_code_value(c) == 3 <==> c == ExitCode::InputNotFound,
        exit_code_value(c) == 4 <==> c == ExitCode::UnsupportedInput,
        exit_code_value(c) == 12 <==> c == ExitCode::PiiFailed,
        10 <= exit_code_value(c) <= 14 <==> (c == ExitCode::QualityFailed || c == ExitCode::PolicyFailed || c
            == ExitCode::PiiFailed || c == ExitCode::SchemaFailed || c == ExitCode::LineageIncomplete),
        20 <= exit_code_value(c) <= 22 <==> (c == ExitCode::BackendUnavailable || c == ExitCode::AuthFailed
            || c == ExitCode::VerificationFailed),
{
}

} // verus!
