//! The exit status that a fixture expects of its command.

use crate::text::{decimal_i32, parse_i32, same_text};
use vstd::prelude::*;
use vstd::string::StringExecFns;

verus! {

/// Expected status of a command.
#[derive(Copy, Clone, Debug, PartialEq, Eq, Structural)]
pub enum CommandStatus {
    Success,
    Failed,
    Interrupted,
    Skipped,
    Code(i32),
}

/// The status that a word stands for: one of the four names, or an exit code
/// written in base 10.
pub open spec fn status_of(s: Seq<char>) -> Option<CommandStatus> {
    if s == "success"@ {
        Some(CommandStatus::Success)
    } else if s == "failed"@ {
        Some(CommandStatus::Failed)
    } else if s == "interrupted"@ {
        Some(CommandStatus::Interrupted)
    } else if s == "skipped"@ {
        Some(CommandStatus::Skipped)
    } else {
        match decimal_i32(s) {
            Some(code) => Some(CommandStatus::Code(code)),
            None => None,
        }
    }
}

/// What is reported for a word that names no status.
pub open spec fn status_error(s: Seq<char>) -> Seq<char> {
    "Expected an exit code, got "@ + s
}

impl Default for CommandStatus {
    fn default() -> (r: Self)
        ensures
            r == CommandStatus::Success,
    {
        CommandStatus::Success
    }
}

impl CommandStatus {
    /// Reads a status from its name or from an exit code.
    pub fn from_str(s: &str) -> (r: Result<CommandStatus, String>)
        ensures
            match status_of(s@) {
                Some(status) => r == Ok::<CommandStatus, String>(status),
                None => r is Err && r->Err_0@ == status_error(s@),
            },
    {
        if same_text(s, "success") {
            Ok(CommandStatus::Success)
        } else if same_text(s, "failed") {
            Ok(CommandStatus::Failed)
        } else if same_text(s, "interrupted") {
            Ok(CommandStatus::Interrupted)
        } else if same_text(s, "skipped") {
            Ok(CommandStatus::Skipped)
        } else {
            match parse_i32(s) {
                Some(code) => Ok(CommandStatus::Code(code)),
                None => Err(String::from_str("Expected an exit code, got ").concat(s)),
            }
        }
    }
}

impl std::str::FromStr for CommandStatus {
    type Err = String;

    /// Reads a status from its name or from an exit code, as the function
    /// of the same name on the type does.
    fn from_str(s: &str) -> (r: Result<Self, String>)
        ensures
            match status_of(s@) {
                Some(status) => r == Ok::<CommandStatus, String>(status),
                None => r is Err && r->Err_0@ == status_error(s@),
            },
    {
        CommandStatus::from_str(s)
    }
}

} // verus!
