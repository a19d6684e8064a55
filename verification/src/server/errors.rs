//! Why a request is no command, or why a command did not run.
use vstd::prelude::*;

verus! {

/// Why a request is no command, or why a command did not run.
#[derive(Debug, Clone, Copy, PartialEq, Eq, Structural)]
pub enum CommandError {
    /// No command has this name.
    NotFound,
    /// An argument is missing or unreadable.
    InvalidArgs,
    /// The command knows no option of this name.
    InvalidOption,
    /// The command cannot run on this server.
    CommandFailed,
}

impl CommandError {
    /// The text that describes this error.
    pub open spec fn message(self) -> Seq<char> {
        match self {
            CommandError::NotFound => "Command Error: Not found!"@,
            CommandError::InvalidArgs => "Command Error: Invalid args!"@,
            CommandError::InvalidOption => "Command Error: Invalid option!"@,
            CommandError::CommandFailed => "Command Error: Command failed!"@,
        }
    }

    /// The text that describes this error.
    pub fn to_string(&self) -> (r: String)
        ensures
            r@ == self.message(),
    {
        match self {
            CommandError::NotFound => "Command Error: Not found!".to_owned(),
            CommandError::InvalidArgs => "Command Error: Invalid args!".to_owned(),
            CommandError::InvalidOption => "Command Error: Invalid option!".to_owned(),
            CommandError::CommandFailed => "Command Error: Command failed!".to_owned(),
        }
    }
}

} // verus!
