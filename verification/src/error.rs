//! The typed error every command funnels failures through.
use crate::exit::ExitCode;
use vstd::prelude::*;
use vstd::string::*;

verus! {

/// The error type every command funnels failures through on the way to a
/// process exit code. Each variant carries a message and remediation text a
/// user can act on.
#[derive(Debug, Clone)]
pub enum DatagovError {
    /// An unexpected internal failure.
    Internal { message: String, remediation: String },
    /// The user supplied invalid arguments or configuration.
    InvalidArgs { message: String, remediation: String },
    /// The requested input path does not exist or cannot be read.
    InputNotFound { message: String, remediation: String },
    /// The input format or dialect is not supported.
    UnsupportedInput { message: String, remediation: String },
}

/// The default remediation attached to internal errors.
pub open spec fn internal_remediation() -> Seq<char> {
    "This is likely a bug; please file an issue with the command you ran."@
}

impl DatagovError {
    /// The exit code a variant maps to.
    pub open spec fn spec_exit_code(self) -> ExitCode {
        match self {
            DatagovError::Internal { .. } => ExitCode::Internal,
            DatagovError::InvalidArgs { .. } => ExitCode::InvalidArgs,
            DatagovError::InputNotFound { .. } => ExitCode::InputNotFound,
            DatagovError::UnsupportedInput { .. } => ExitCode::UnsupportedInput,
        }
    }

    /// The message text of any variant.
    pub open spec fn spec_message(self) -> Seq<char> {
        match self {
            DatagovError::Internal { message, .. } => message@,
            DatagovError::InvalidArgs { message, .. } => message@,
            DatagovError::InputNotFound { message, .. } => message@,
            DatagovError::UnsupportedInput { message, .. } => message@,
        }
    }

    /// The remediation text of any variant.
    pub open spec fn spec_remediation(self) -> Seq<char> {
        match self {
            DatagovError::Internal { remediation, .. } => remediation@,
            DatagovError::InvalidArgs { remediation, .. } => remediation@,
            DatagovError::InputNotFound { remediation, .. } => remediation@,
            DatagovError::UnsupportedInput { remediation, .. } => remediation@,
        }
    }

    /// The stable machine-readable code surfaced in the JSON rendering.
    pub open spec fn spec_code(self) -> Seq<char> {
        match self {
            DatagovError::Internal { .. } => "internal_error"@,
            DatagovError::InvalidArgs { .. } => "invalid_args"@,
            DatagovError::InputNotFound { .. } => "input_not_found"@,
            DatagovError::UnsupportedInput { .. } => "unsupported_input"@,
        }
    }

    /// Construct an `Internal` error with default remediation guidance.
    pub fn internal(message: &str) -> (e: Self)
        ensures
            e is Internal,
            e.spec_message() == message@,
            e.spec_remediation() == internal_remediation(),
    {
        DatagovError::Internal {
            message: String::from_str(message),
            remediation: String::from_str(
                "This is likely a bug; please file an issue with the command you ran.",
            ),
        }
    }

    /// Construct an `InvalidArgs` error.
    pub fn invalid_args(message: &str, remediation: &str) -> (e: Self)
        ensures
            e is InvalidArgs,
            e.spec_message() == message@,
            e.spec_remediation() == remediation@,
    {
        DatagovError::InvalidArgs {
            message: String::from_str(message),
            remediation: String::from_str(remediation),
        }
    }

    /// Construct an `InputNotFound` error.
    pub fn input_not_found(message: &str, remediation: &str) -> (e: Self)
        ensures
            e is InputNotFound,
            e.spec_message() == message@,
            e.spec_remediation() == remediation@,
    {
        DatagovError::InputNotFound {
            message: String::from_str(message),
            remediation: String::from_str(remediation),
        }
    }

    /// Construct an `UnsupportedInput` error.
    pub fn unsupported_input(message: &str, remediation: &str) -> (e: Self)
        ensures
            e is UnsupportedInput,
            e.spec_message() == message@,
            e.spec_remediation() == remediation@,
    {
        DatagovError::UnsupportedInput {
            message: String::from_str(message),
            remediation: String::from_str(remediation),
        }
    }

    /// The stable machine-readable code (distinct from the process exit code).
    pub fn code(&self) -> (c: &'static str)
        ensures
            c@ == self.spec_code(),
    {
        match self {
            DatagovError::Internal { .. } => "internal_error",
            DatagovError::InvalidArgs { .. } => "invalid_args",
            DatagovError::InputNotFound { .. } => "input_not_found",
            DatagovError::UnsupportedInput { .. } => "unsupported_input",
        }
    }

    /// The exit code this error maps to.
    pub fn exit_code(&self) -> (c: ExitCode)
        ensures
            c == self.spec_exit_code(),
    {
        match self {
            DatagovError::Internal { .. } => ExitCode::Internal,
            DatagovError::InvalidArgs { .. } => ExitCode::InvalidArgs,
            DatagovError::InputNotFound { .. } => ExitCode::InputNotFound,
            DatagovError::UnsupportedInput { .. } => ExitCode::UnsupportedInput,
        }
    }

    /// The human-readable message (no remediation).
    pub fn message(&self) -> (m: &str)
        ensures
            m@ == self.spec_message(),
    {
        match self {
            DatagovError::Internal { message, .. } => message.as_str(),
            DatagovError::InvalidArgs { message, .. } => message.as_str(),
            DatagovError::InputNotFound { message, .. } => message.as_str(),
            DatagovError::UnsupportedInput { message, .. } => message.as_str(),
        }
    }

    /// The remediation guidance for this error.
    pub fn remediation(&self) -> (r: &str)
        ensures
            r@ == self.spec_remediation(),
    {
        match self {
            DatagovError::Internal { remediation, .. } => remediation.as_str(),
            DatagovError::InvalidArgs { remediation, .. } => remediation.as_str(),
            DatagovError::InputNotFound { remediation, .. } => remediation.as_str(),
            DatagovError::UnsupportedInput { remediation, .. } => remediation.as_str(),
        }
    }
}

} // verus!
