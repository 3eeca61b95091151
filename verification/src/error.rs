//! The error taxonomy shared by the resolver and the supervisor.

use vstd::prelude::*;
use vstd::string::*;

verus! {

/// Why an operation was refused or a run ended without success.
#[derive(Clone, Copy, Debug, PartialEq, Eq, Structural)]
pub enum Error {
    /// The interpreter path has fewer than two ancestor directories.
    InvalidEnvironmentLayout,
    /// The tool's executable could not be started.
    SpawnError,
    /// A run was requested while another one is active.
    AlreadyRunning,
    /// A cancellation was requested while no run is active.
    NotRunning,
    /// The tool exited with a nonzero status, or wrote the diagnostic marker.
    ProcessFailure,
    /// The run was stopped on request.
    Cancelled,
}

impl Error {
    /// The text shown for this error.
    pub open spec fn message_text(self) -> Seq<char> {
        match self {
            Error::InvalidEnvironmentLayout => "Interpreter path has no environment root"@,
            Error::SpawnError => "Failed to start process"@,
            Error::AlreadyRunning => "Tedana is already running"@,
            Error::NotRunning => "No Tedana process is currently running"@,
            Error::ProcessFailure => "Tedana execution failed"@,
            Error::Cancelled => "Tedana execution was cancelled"@,
        }
    }

    /// Renders this error for display.
    pub fn message(&self) -> (text: String)
        ensures
            text@ == self.message_text(),
    {
        match self {
            Error::InvalidEnvironmentLayout => String::from_str(
                "Interpreter path has no environment root",
            ),
            Error::SpawnError => String::from_str("Failed to start process"),
            Error::AlreadyRunning => String::from_str("Tedana is already running"),
            Error::NotRunning => String::from_str("No Tedana process is currently running"),
            Error::ProcessFailure => String::from_str("Tedana execution failed"),
            Error::Cancelled => String::from_str("Tedana execution was cancelled"),
        }
    }
}

} // verus!
