//! The error type the interactive shell reports with.  The shell's
//! read-eval loop itself is terminal I/O and lives in the application.

use vstd::prelude::*;

verus! {

use vstd::string::StringExecFns;

#[derive(Debug)]
pub enum ShellError {
    ApiError(String),
    ConfigError(String),
    IoError(String),
}

impl ShellError {
    /// The error as the shell prints it, with its category in front.
    pub fn message(&self) -> (r: String)
        ensures
            match self {
                ShellError::ApiError(m) => r@ == "API Error: "@ + m@,
                ShellError::ConfigError(m) => r@ == "Config Error: "@ + m@,
                ShellError::IoError(m) => r@ == "IO Error: "@ + m@,
            },
    {
        match self {
            ShellError::ApiError(m) => "API Error: ".to_owned().concat(m.as_str()),
            ShellError::ConfigError(m) => "Config Error: ".to_owned().concat(m.as_str()),
            ShellError::IoError(m) => "IO Error: ".to_owned().concat(m.as_str()),
        }
    }
}

} // verus!
