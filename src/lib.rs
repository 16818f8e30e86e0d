//! Supervised child processes: a parser for a small command-specification
//! language, a registry of spawned process groups, the guards that own their
//! entries, and the policy that forwards terminating signals to them.

pub mod arg;
pub mod error;
pub mod grammar;
pub mod guard;
pub mod parser;
pub mod registry;
pub mod relay;
pub mod words;

pub use arg::{command_arg, CommandArg};
pub use error::{exit_outcome, CommandError};
pub use guard::{finish, Release, SpawnGuard};
pub use parser::{parse_command_spec, CommandSpec, SpecParser};
pub use registry::ProcessRegistry;
pub use relay::{disable_cleanup_on_ctrlc, RelayAction, Signal, SignalRelay, INTERRUPT_EXIT_STATUS};
