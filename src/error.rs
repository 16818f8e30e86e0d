use vstd::prelude::*;
use crate::arg::{decimal, i64_text, u64_text};

verus! {

#[verifier::external_type_specification]
#[verifier::external_body]
pub struct ExIoError(std::io::Error);

/// Every way that parsing a command specification or running a command fails.
#[derive(Debug)]
pub enum CommandError {
    /// The operating system could not spawn or wait for the process.
    Io(std::io::Error),
    /// The process was terminated by a signal and left no exit code.
    Interrupt,
    /// The process exited with this non-zero code.
    Code(i32),
    /// A `cd` line held the wrong number of arguments: (expected, found).
    TooManyCDArgs(usize, usize),
    /// An `export` line named no variable: (expected at least, found).
    NotEnoughExportArgs(usize, usize),
    /// A `cd` line came after the first non-blank line.
    NoChangeDir,
    /// An `export` item held no `=`.
    InvalidExport,
    /// An `export` line came after the command had started.
    ExportMispositioned,
    /// The specification held no command.
    NoCommand,
}

impl CommandError {
    /// The exit code of a command that failed with `Code`.
    pub fn error_code(&self) -> (r: i32)
        requires
            self is Code,
        ensures
            r == self->Code_0,
    {
        match self {
            CommandError::Code(value) => *value,
            _ => 0,
        }
    }
}

/// Relies on std::io::Error's `Debug`: the error's kind and cause, as text.
#[verifier::external_body]
fn io_error_text(err: &std::io::Error) -> (r: String) {
    format!("{:?}", err)
}

/// `head`, the decimal `a`, `mid`, the decimal `b`.
fn two_numbers(head: &str, a: usize, mid: &str, b: usize) -> (r: String)
    ensures
        r@ == head@ + decimal(a as int) + mid@ + decimal(b as int),
{
    let mut s = String::from_str(head);
    s.append(u64_text(a as u64).as_str());
    s.append(mid);
    s.append(u64_text(b as u64).as_str());
    s
}

impl CommandError {
    /// The message that describes the failure.
    pub fn message(&self) -> (r: String)
        ensures
            match self {
                CommandError::Io(_) => r@.len() >= 25 && r@.take(25) == "Encountered an IO error: "@,
                CommandError::Interrupt => r@ == "Command was interrupted."@,
                CommandError::Code(c) => r@ == "Command failed with error code "@ + decimal(*c as int),
                CommandError::TooManyCDArgs(e, f) => r@ == "Too many arguments in cd; expected "@
                    + decimal(*e as int) + ", found "@ + decimal(*f as int),
                CommandError::NotEnoughExportArgs(e, f) => r@
                    == "Not enough arguments in export; expected at least "@ + decimal(*e as int)
                    + ", found "@ + decimal(*f as int),
                CommandError::NoChangeDir => r@
                    == "cd should be the first line in your command! macro."@,
                CommandError::InvalidExport => r@ == "Expected export of the format NAME=VALUE"@,
                CommandError::ExportMispositioned => r@
                    == "exports should follow cd but precede your command in the command! macro."@,
                CommandError::NoCommand => r@ == "Didn't find a command in your command! macro."@,
            },
    {
        match self {
            CommandError::Io(err) => {
                let head = "Encountered an IO error: ";
                proof {
                    reveal_strlit("Encountered an IO error: ");
                }
                let mut s = String::from_str(head);
                s.append(io_error_text(err).as_str());
                assert(s@.take(25) =~= head@);
                s
            },
            CommandError::Interrupt => String::from_str("Command was interrupted."),
            CommandError::Code(c) => {
                let mut s = String::from_str("Command failed with error code ");
                s.append(i64_text(*c as i64).as_str());
                s
            },
            CommandError::TooManyCDArgs(e, f) => two_numbers(
                "Too many arguments in cd; expected ",
                *e,
                ", found ",
                *f,
            ),
            CommandError::NotEnoughExportArgs(e, f) => two_numbers(
                "Not enough arguments in export; expected at least ",
                *e,
                ", found ",
                *f,
            ),
            CommandError::NoChangeDir => String::from_str(
                "cd should be the first line in your command! macro.",
            ),
            CommandError::InvalidExport => String::from_str("Expected export of the format NAME=VALUE"),
            CommandError::ExportMispositioned => String::from_str(
                "exports should follow cd but precede your command in the command! macro.",
            ),
            CommandError::NoCommand => String::from_str("Didn't find a command in your command! macro."),
        }
    }
}

/// What a wait that ended with exit code `code` means: success on 0, the
/// code on any other, and an interrupt where a signal ended the process and
/// left no code.
pub open spec fn outcome_of(code: Option<i32>) -> Result<(), CommandError> {
    match code {
        Some(c) => if c == 0 {
            Ok(())
        } else {
            Err(CommandError::Code(c))
        },
        None => Err(CommandError::Interrupt),
    }
}

pub fn exit_outcome(code: Option<i32>) -> (r: Result<(), CommandError>)
    ensures
        r == outcome_of(code),
{
    match code {
        Some(0) => Ok(()),
        Some(c) => Err(CommandError::Code(c)),
        None => Err(CommandError::Interrupt),
    }
}

} // verus!
