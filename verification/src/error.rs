//! The ways in which a command can fail once its input has been read.

use vstd::prelude::*;

verus! {

/// The error that `serde_json` reports. Nothing is known of what it holds.
#[verifier::external_type_specification]
#[verifier::external_body]
pub struct ExJsonError(serde_json::Error);

/// Why a command gave up.
#[derive(Debug)]
pub enum CommandError {
    /// The remote platform answered that the request did not succeed.
    UnsuccessfulRequest,
    /// The file has no section for the environment that was asked for.
    EmptyEnvironment,
    /// `serde_json` reported a failure while a value was written as a JSON
    /// string. It reports none on a text, so rendering does not end this way.
    Encoding(serde_json::Error),
}

impl CommandError {
    /// A short description of the failure.
    pub fn message(&self) -> (text: &'static str)
        ensures
            text@ == (match self {
                CommandError::UnsuccessfulRequest => "unsuccessful Cloudflare request"@,
                CommandError::EmptyEnvironment => "empty environment"@,
                CommandError::Encoding(_) => "value cannot be encoded"@,
            }),
    {
        match self {
            CommandError::UnsuccessfulRequest => "unsuccessful Cloudflare request",
            CommandError::EmptyEnvironment => "empty environment",
            CommandError::Encoding(_) => "value cannot be encoded",
        }
    }
}

} // verus!
