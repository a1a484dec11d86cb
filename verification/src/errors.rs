//! The library's error taxonomy.
//!
//! Fatal errors surface as a single-line message and a non-zero exit in the
//! binary around the library; the variants here carry what that message
//! needs as plain values.

use vstd::prelude::*;
use vstd::string::StringExecFns;

verus! {

/// Everything that can go wrong in a session, a query or a chat.
#[derive(Debug)]
pub enum WtgError {
    /// No completed command boundary exists in the log yet.
    NoCommandRun { logfile: String },
    /// An interactive chat was started without a real terminal on input.
    ChatNotTty,
    /// A terminal-attribute, geometry or process-control call failed;
    /// carries the errno value the OS reported.
    NixError(i32),
    /// The log file could not be opened.
    LogFileOpenError { logfile: String },
    /// Some other input or output failure, as a message.
    StdioError(String),
}

impl WtgError {
    /// The user-facing one-line message for this error.
    pub fn message(&self) -> (r: String)
        ensures
            self is NoCommandRun ==> r@ == "No command run yet in this session."@,
            self is NixError ==> r@ == "Nix error."@,
            self is ChatNotTty ==> r@
                == "Chat should have stdin connected to a tty, otherwise input is not interactive."@,
            self matches WtgError::LogFileOpenError { logfile } ==> r@ == "Failed to open log file: "@
                + logfile@ + ". Does it exist?"@,
            self matches WtgError::StdioError(m) ==> r@ == m@,
    {
        match self {
            WtgError::NoCommandRun { .. } => String::from_str(
                "No command run yet in this session.",
            ),
            WtgError::ChatNotTty => String::from_str(
                "Chat should have stdin connected to a tty, otherwise input is not interactive.",
            ),
            WtgError::NixError(_) => String::from_str("Nix error."),
            WtgError::LogFileOpenError { logfile } => String::from_str(
                "Failed to open log file: ",
            ).concat(logfile.as_str()).concat(". Does it exist?"),
            WtgError::StdioError(m) => m.clone(),
        }
    }
}

} // verus!
