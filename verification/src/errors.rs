//! The error taxonomy of a run. Every error is terminal for the run:
//! there is no partial-result mode.

use vstd::prelude::*;

verus! {

/// Why a run failed.
#[derive(Clone, Copy, Debug, PartialEq, Eq, Structural)]
pub enum RunError {
    /// The serial poll exceeded its timeout without a valid response.
    DeviceUnresponsive,
    /// A network transport failure.
    RemoteUnreachable,
    /// A response body that neither parses as a number nor matches the
    /// reading grammar after the retries were exhausted.
    MalformedResponse,
    /// The actuator never acknowledged a command.
    ActuatorAckTimeout,
    /// A required endpoint or port was not configured.
    ConfigurationMissing,
}

impl RunError {
    /// A short description, for the process's final report.
    pub fn describe(&self) -> (r: &'static str)
        ensures
            match self {
                RunError::DeviceUnresponsive => r@ == "device unresponsive"@,
                RunError::RemoteUnreachable => r@ == "remote endpoint unreachable"@,
                RunError::MalformedResponse => r@ == "malformed remote response"@,
                RunError::ActuatorAckTimeout => r@ == "actuator did not acknowledge"@,
                RunError::ConfigurationMissing => r@ == "required configuration missing"@,
            },
    {
        match self {
            RunError::DeviceUnresponsive => "device unresponsive",
            RunError::RemoteUnreachable => "remote endpoint unreachable",
            RunError::MalformedResponse => "malformed remote response",
            RunError::ActuatorAckTimeout => "actuator did not acknowledge",
            RunError::ConfigurationMissing => "required configuration missing",
        }
    }
}

} // verus!
