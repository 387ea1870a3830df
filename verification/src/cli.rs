//! The commands of the command-line tools, and their outcome.
use vstd::prelude::*;

verus! {

/// The wicked subcommands of the agama command line.
#[derive(Debug, PartialEq)]
pub enum WickedCommands {
    /// Shows the current xml wicked configuration
    Show { path: String },
    /// Migrate wicked state at path
    Migrate { path: String },
}

/// What a wicked subcommand asks for.
#[derive(Debug, PartialEq)]
pub enum WickedAction {
    Show(String),
    Migrate(String),
}

/// The action of a wicked subcommand: showing or migrating the
/// configuration at its path.
pub fn parse_wicked_command(subcommand: WickedCommands) -> (r: WickedAction)
    ensures
        match subcommand {
            WickedCommands::Show { path } => r matches WickedAction::Show(p) && p@ == path@,
            WickedCommands::Migrate { path } => r matches WickedAction::Migrate(p) && p@ == path@,
        },
{
    match subcommand {
        WickedCommands::Show { path } => WickedAction::Show(path),
        WickedCommands::Migrate { path } => WickedAction::Migrate(path),
    }
}

/// The subcommands of the migration tool.
#[derive(Debug, PartialEq)]
pub enum Commands {
    /// Shows the current xml wicked configuration
    Show {
        /// Where wicked xml configs are located
        path: String,
    },
    /// Migrate wicked state at path
    Migrate {
        /// Where wicked xml configs are located
        path: String,
    },
}

/// Represents the result of execution.
#[derive(Debug, PartialEq, Clone, Copy)]
pub enum CliResult {
    /// Successful execution.
    Success,
    /// Something went wrong.
    Error,
}

impl CliResult {
    pub open spec fn spec_code(self) -> u8 {
        match self {
            CliResult::Success => 0,
            CliResult::Error => 1,
        }
    }

    /// The exit status of the process: 0 on success, 1 on failure.
    pub fn code(&self) -> (r: u8)
        ensures
            r == self.spec_code(),
    {
        match self {
            CliResult::Success => 0,
            CliResult::Error => 1,
        }
    }
}

/// Reads the wicked configuration at a path.
#[derive(Debug, PartialEq)]
pub struct WickedAdapter {
    pub path: String,
}

impl WickedAdapter {
    /// An adapter for the wicked configuration at `path`.
    pub fn new(path: &str) -> (r: Self)
        ensures
            r.path@ == path@,
    {
        Self { path: String::from_str(path) }
    }
}

/// Why handling a file failed; the causes are kept as their messages.
#[derive(Debug, PartialEq)]
pub enum FileError {
    Unreachable(String),
    InputOutputError(String),
    PermissionsError(String),
    OwnerChangeError(String, String),
    MkdirError(String, String),
    FileSourceError(String),
}

impl FileError {
    /// The text that describes the error.
    pub open spec fn spec_message(&self) -> Seq<char> {
        match self {
            FileError::Unreachable(e) => "Could not fetch the file: '"@ + e@ + "'"@,
            FileError::InputOutputError(e) => "I/O error: '"@ + e@ + "'"@,
            FileError::PermissionsError(e) => "Invalid permissions: '"@ + e@ + "'"@,
            FileError::OwnerChangeError(c, s) => "Failed to change owner: command '"@ + c@
                + "' stderr '"@ + s@ + "'"@,
            FileError::MkdirError(c, s) => "Failed to create directories: command '"@ + c@
                + "' stderr '"@ + s@ + "'"@,
            FileError::FileSourceError(e) => e@,
        }
    }

    /// The text that describes the error.
    pub fn message(&self) -> (r: String)
        ensures
            r@ == self.spec_message(),
    {
        match self {
            FileError::Unreachable(e) => {
                let mut m = String::from_str("Could not fetch the file: '");
                m.append(e.as_str());
                m.append("'");
                m
            },
            FileError::InputOutputError(e) => {
                let mut m = String::from_str("I/O error: '");
                m.append(e.as_str());
                m.append("'");
                m
            },
            FileError::PermissionsError(e) => {
                let mut m = String::from_str("Invalid permissions: '");
                m.append(e.as_str());
                m.append("'");
                m
            },
            FileError::OwnerChangeError(c, s) => {
                let mut m = String::from_str("Failed to change owner: command '");
                m.append(c.as_str());
                m.append("' stderr '");
                m.append(s.as_str());
                m.append("'");
                m
            },
            FileError::MkdirError(c, s) => {
                let mut m = String::from_str("Failed to create directories: command '");
                m.append(c.as_str());
                m.append("' stderr '");
                m.append(s.as_str());
                m.append("'");
                m
            },
            FileError::FileSourceError(e) => e.clone(),
        }
    }
}


/// The process exits with status 0 exactly on success, and with another
/// status on an error.
pub proof fn lemma_exit_codes(r: CliResult)
    ensures
        r.spec_code() == 0 <==> r == CliResult::Success,
        r == CliResult::Error ==> r.spec_code() == 1,
{
}

} // verus!
