//! Errors of the exporter.
use vstd::prelude::*;
use crate::pipeline::Failure;

verus! {

/// An error of the exporter, with its description.
#[derive(Clone, Debug, PartialEq)]
pub enum Error {
    /// Acquiring or applying a credential failed.
    Authorizer(String),
    /// Reading or writing failed.
    Io(String),
    /// Any other failure.
    Other(String),
    /// The network transport failed or the backend refused a request.
    Transport(String),
}

impl Error {
    /// The name of the exporter that reports these errors.
    pub fn exporter_name(&self) -> (r: &'static str)
        ensures
            r@ == "stackdriver"@,
    {
        "stackdriver"
    }

    /// The error reported for a failed step of a batch's export.
    pub fn from_failure(failure: Failure, message: String) -> (r: Error)
        ensures
            failure is Authorization ==> r == Error::Authorizer(message),
            failure is Transport ==> r == Error::Transport(message),
    {
        match failure {
            Failure::Authorization(_) => Error::Authorizer(message),
            Failure::Transport(_) => Error::Transport(message),
        }
    }
}

} // verus!
