//! Why the service could not start or keep running.

use vstd::prelude::*;
use vstd::string::*;

verus! {

/// A failure of the service as a whole.
#[derive(Debug, Clone, PartialEq, Eq)]
pub enum AppError {
    /// A setting that the service needs is not there.
    MissingConfig(String),
    /// A setting is there and holds nothing but whitespace.
    EmptyEnv(String),
    /// A setting is no valid Unicode.
    InvalidEnv(String),
    /// A file that should hold a secret holds nothing.
    EmptySecret(String),
    /// A file that holds a secret could not be read.
    SecretRead { path: String, source: String },
    /// The service failed.
    Server(String),
    /// Reading or writing failed.
    Io(String),
}

impl AppError {
    /// The failure in words.
    pub open spec fn text(&self) -> Seq<char> {
        match self {
            AppError::MissingConfig(name) => "Missing required configuration: "@ + name@,
            AppError::EmptyEnv(name) => "Environment variable "@ + name@ + " is set but empty"@,
            AppError::InvalidEnv(name) => "Environment variable "@ + name@
                + " contains invalid Unicode"@,
            AppError::EmptySecret(path) => "Secret file "@ + path@ + " is empty"@,
            AppError::SecretRead { path, source } => "Failed to read secret file "@ + path@ + ": "@
                + source@,
            AppError::Server(detail) => "Server error: "@ + detail@,
            AppError::Io(detail) => "IO error: "@ + detail@,
        }
    }

    /// Says in words what failed.
    pub fn message(&self) -> (message: String)
        ensures
            message@ == self.text(),
    {
        match self {
            AppError::MissingConfig(name) => String::from_str(
                "Missing required configuration: ",
            ).concat(name.as_str()),
            AppError::EmptyEnv(name) => String::from_str("Environment variable ").concat(
                name.as_str(),
            ).concat(" is set but empty"),
            AppError::InvalidEnv(name) => String::from_str("Environment variable ").concat(
                name.as_str(),
            ).concat(" contains invalid Unicode"),
            AppError::EmptySecret(path) => String::from_str("Secret file ").concat(
                path.as_str(),
            ).concat(" is empty"),
            AppError::SecretRead { path, source } => String::from_str(
                "Failed to read secret file ",
            ).concat(path.as_str()).concat(": ").concat(source.as_str()),
            AppError::Server(detail) => String::from_str("Server error: ").concat(detail.as_str()),
            AppError::Io(detail) => String::from_str("IO error: ").concat(detail.as_str()),
        }
    }
}

} // verus!
