//! Common types for command handlers: exit codes, errors and
//! validation responses.

use vstd::prelude::*;

verus! {

/// Standard exit codes of the command-line surface.
#[derive(Clone, Copy, Debug, PartialEq, Eq, Structural)]
pub enum ExitCode {
    /// Success.
    Success,
    /// Validation or user error.
    ValidationError,
    /// Input/output or system error.
    IoError,
}

impl ExitCode {
    /// The numeric code handed to the process exit: zero for success,
    /// one for a validation error, two for an input/output error.
    pub fn as_i32(self) -> (r: i32)
        ensures
            r == match self {
                ExitCode::Success => 0int,
                ExitCode::ValidationError => 1int,
                ExitCode::IoError => 2int,
            },
    {
        match self {
            ExitCode::Success => 0,
            ExitCode::ValidationError => 1,
            ExitCode::IoError => 2,
        }
    }
}

/// A command error: a message and the exit code it maps to.
#[derive(Clone, Debug)]
pub struct CliError {
    pub message: String,
    pub exit_code: ExitCode,
}

impl CliError {
    /// A validation error.
    pub fn validation(message: String) -> (e: CliError)
        ensures
            e.message@ == message@,
            e.exit_code == ExitCode::ValidationError,
    {
        CliError { message, exit_code: ExitCode::ValidationError }
    }

    /// An input/output error.
    pub fn io(message: String) -> (e: CliError)
        ensures
            e.message@ == message@,
            e.exit_code == ExitCode::IoError,
    {
        CliError { message, exit_code: ExitCode::IoError }
    }
}

/// A validation position, as reported to callers.
#[derive(Clone, Copy, Debug, PartialEq, Eq, Structural)]
pub struct ValidationPosition {
    pub row: u8,
    pub col: u8,
}

/// Where a validation message points: a layer and a position on it.
#[derive(Clone, Copy, Debug, PartialEq, Eq, Structural)]
pub struct ValidationLocation {
    pub layer: usize,
    pub position: ValidationPosition,
}

/// One validation finding, tagged `error` or `warning`.
#[derive(Clone, Debug)]
pub struct ValidationMessage {
    /// `error` or `warning`.
    pub severity: String,
    /// A human-readable message.
    pub message: String,
    /// Where the finding points, when it concerns one key.
    pub location: Option<ValidationLocation>,
}

/// Per-check summaries of a validation run.
#[derive(Clone, Debug)]
pub struct ValidationChecks {
    pub keycodes: String,
    pub positions: String,
    pub layer_refs: String,
    pub tap_dances: String,
}

impl ValidationChecks {
    /// A summary with every check passed.
    pub fn all_passed() -> (r: ValidationChecks)
        ensures
            r.keycodes@ == "passed"@,
            r.positions@ == "passed"@,
            r.layer_refs@ == "passed"@,
            r.tap_dances@ == "passed"@,
    {
        ValidationChecks {
            keycodes: String::from_str("passed"),
            positions: String::from_str("passed"),
            layer_refs: String::from_str("passed"),
            tap_dances: String::from_str("passed"),
        }
    }
}

/// The full response of a validation run.
#[derive(Clone, Debug)]
pub struct ValidationResponse {
    /// Whether the layout passed: no error-severity findings.
    pub valid: bool,
    /// Every finding, errors and warnings alike.
    pub errors: Vec<ValidationMessage>,
    /// Per-check summaries.
    pub checks: ValidationChecks,
}

} // verus!
