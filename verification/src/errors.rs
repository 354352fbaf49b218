//! Typed failures.  Every operation of the crate returns one of these
//! rather than aborting; each carries enough context (a name, a path, a
//! version) to be printed directly.

use vstd::prelude::*;

use crate::strutil::concat_str;

verus! {

broadcast use vstd::string::group_string_axioms;

/// Failures of the version-control adapter.
#[derive(Debug, Clone, PartialEq, Eq)]
pub enum GitError {
    InitError(String),
    Io(String),
    CommandError(String),
    ZipError(String),
    TagMessageError(String),
}

impl GitError {
    /// The message's text.
    pub open spec fn spec_text(self) -> Seq<char> {
        match self {
            GitError::InitError(s) => "Error initializing the repository: "@ + s@,
            GitError::Io(s) => "Error writing the file: "@ + s@,
            GitError::CommandError(s) => "Error executing the git command: "@ + s@,
            GitError::ZipError(s) => "Error zipping the package: "@ + s@,
            GitError::TagMessageError(s) => "Error getting the tag message: "@ + s@,
        }
    }

    /// Writes the message.
    pub fn text(&self) -> (r: String)
        ensures
            r@ == self.spec_text(),
    {
        match self {
            GitError::InitError(s) => concat_str("Error initializing the repository: ", s.as_str()),
            GitError::Io(s) => concat_str("Error writing the file: ", s.as_str()),
            GitError::CommandError(s) => concat_str(
                "Error executing the git command: ",
                s.as_str(),
            ),
            GitError::ZipError(s) => concat_str("Error zipping the package: ", s.as_str()),
            GitError::TagMessageError(s) => concat_str(
                "Error getting the tag message: ",
                s.as_str(),
            ),
        }
    }
}

/// Failures of manifest handling and command launching.
#[derive(Debug, Clone, PartialEq, Eq)]
pub enum PackageError {
    InitializationError(String),
    PackageAlreadyExists(String),
    ReadError(String),
    PackageNotFound(String),
    InvalidPackage(String),
    WriteError(String),
    ParseError(String),
    SerializeError(String),
    GitError(GitError),
    CommandNotFound(String),
    SystemTimeError(String),
}

impl PackageError {
    /// The message's text.
    pub open spec fn spec_text(self) -> Seq<char> {
        match self {
            PackageError::InitializationError(s) => "InitializationError: "@ + s@,
            PackageError::PackageAlreadyExists(s) => "Package already exists: "@ + s@,
            PackageError::ReadError(s) => "Error Reading the package: "@ + s@,
            PackageError::PackageNotFound(s) => "No package found in given directory: "@ + s@,
            PackageError::InvalidPackage(s) => "Invalid Package: "@ + s@,
            PackageError::WriteError(s) => "Error writing the package: "@ + s@,
            PackageError::ParseError(s) => "Error parsing the package: "@ + s@,
            PackageError::SerializeError(s) => "Error serializing the package: "@ + s@,
            PackageError::GitError(e) => "Git Error: "@ + e.spec_text(),
            PackageError::CommandNotFound(s) => "Command not found: "@ + s@,
            PackageError::SystemTimeError(s) => "System time error: "@ + s@,
        }
    }

    /// Writes the message.
    pub fn text(&self) -> (r: String)
        ensures
            r@ == self.spec_text(),
    {
        match self {
            PackageError::InitializationError(s) => concat_str("InitializationError: ", s.as_str()),
            PackageError::PackageAlreadyExists(s) => concat_str(
                "Package already exists: ",
                s.as_str(),
            ),
            PackageError::ReadError(s) => concat_str("Error Reading the package: ", s.as_str()),
            PackageError::PackageNotFound(s) => concat_str(
                "No package found in given directory: ",
                s.as_str(),
            ),
            PackageError::InvalidPackage(s) => concat_str("Invalid Package: ", s.as_str()),
            PackageError::WriteError(s) => concat_str("Error writing the package: ", s.as_str()),
            PackageError::ParseError(s) => concat_str("Error parsing the package: ", s.as_str()),
            PackageError::SerializeError(s) => concat_str(
                "Error serializing the package: ",
                s.as_str(),
            ),
            PackageError::GitError(e) => {
                let inner = e.text();
                concat_str("Git Error: ", inner.as_str())
            },
            PackageError::CommandNotFound(s) => concat_str("Command not found: ", s.as_str()),
            PackageError::SystemTimeError(s) => concat_str("System time error: ", s.as_str()),
        }
    }
}

/// Failures of repository handling.
#[derive(Debug, Clone, PartialEq, Eq)]
pub enum RepositoryError {
    RepositoryNotFound(String),
    PackageNotFound(String),
    ReadError(String),
    WriteError(String),
    ParseError(String),
    SerializeError(String),
    PackageAlreadyExists(String),
    ConfigError(String),
    PublishError(String),
    GitError(GitError),
    PackageError(PackageError),
}

impl RepositoryError {
    /// The message's text.
    pub open spec fn spec_text(self) -> Seq<char> {
        match self {
            RepositoryError::RepositoryNotFound(s) => "Repository not found: "@ + s@,
            RepositoryError::PackageNotFound(s) => "Package not found: "@ + s@,
            RepositoryError::ReadError(s) => "Error reading the repository: "@ + s@,
            RepositoryError::WriteError(s) => "Error writing the repository: "@ + s@,
            RepositoryError::ParseError(s) => "Error parsing the repository: "@ + s@,
            RepositoryError::SerializeError(s) => "Error serializing the repository: "@ + s@,
            RepositoryError::PackageAlreadyExists(s) => "Package already exists: "@ + s@,
            RepositoryError::ConfigError(s) => "Error loading the config: "@ + s@,
            RepositoryError::PublishError(s) => "Error publishing the package: "@ + s@,
            RepositoryError::GitError(e) => "Git Error: "@ + e.spec_text(),
            RepositoryError::PackageError(e) => "Package Error: "@ + e.spec_text(),
        }
    }

    /// Writes the message.
    pub fn text(&self) -> (r: String)
        ensures
            r@ == self.spec_text(),
    {
        match self {
            RepositoryError::RepositoryNotFound(s) => concat_str(
                "Repository not found: ",
                s.as_str(),
            ),
            RepositoryError::PackageNotFound(s) => concat_str("Package not found: ", s.as_str()),
            RepositoryError::ReadError(s) => concat_str("Error reading the repository: ", s.as_str()),
            RepositoryError::WriteError(s) => concat_str(
                "Error writing the repository: ",
                s.as_str(),
            ),
            RepositoryError::ParseError(s) => concat_str(
                "Error parsing the repository: ",
                s.as_str(),
            ),
            RepositoryError::SerializeError(s) => concat_str(
                "Error serializing the repository: ",
                s.as_str(),
            ),
            RepositoryError::PackageAlreadyExists(s) => concat_str(
                "Package already exists: ",
                s.as_str(),
            ),
            RepositoryError::ConfigError(s) => concat_str("Error loading the config: ", s.as_str()),
            RepositoryError::PublishError(s) => concat_str(
                "Error publishing the package: ",
                s.as_str(),
            ),
            RepositoryError::GitError(e) => {
                let inner = e.text();
                concat_str("Git Error: ", inner.as_str())
            },
            RepositoryError::PackageError(e) => {
                let inner = e.text();
                concat_str("Package Error: ", inner.as_str())
            },
        }
    }
}

/// Failures of stack runs.
#[derive(Debug, Clone, PartialEq, Eq)]
pub enum StackError {
    Command(String),
    RepositoryError(RepositoryError),
}

impl StackError {
    /// The message's text.
    pub open spec fn spec_text(self) -> Seq<char> {
        match self {
            StackError::Command(s) => "CommandError: "@ + s@,
            StackError::RepositoryError(e) => "Repository Error: "@ + e.spec_text(),
        }
    }

    /// Writes the message.
    pub fn text(&self) -> (r: String)
        ensures
            r@ == self.spec_text(),
    {
        match self {
            StackError::Command(s) => concat_str("CommandError: ", s.as_str()),
            StackError::RepositoryError(e) => {
                let inner = e.text();
                concat_str("Repository Error: ", inner.as_str())
            },
        }
    }
}

} // verus!
