//! The ways in which an invocation can fail before a job is processed.

use vstd::prelude::*;
use crate::exit_code::ExitCode;

verus! {

/// `std::io::Error`, carried through unopened: nothing is known of its
/// contents.
#[verifier::external_type_specification]
#[verifier::external_body]
pub struct ExIoError(std::io::Error);

/// Why no job request could be built.
#[derive(Debug)]
pub enum BackendError {
    /// The spooler asked the backend to identify itself; not a failed job.
    NoArgs,
    /// The argument vector has the wrong number of entries.
    BadArgs,
    /// The device URI is missing from the environment or is not a valid URI.
    NoUri,
    /// Reading the job from standard input or writing the spool failed.
    IOError(std::io::Error),
}

impl BackendError {
    /// The outcome reported to the spooler for this error.
    pub open spec fn exit_code(self) -> ExitCode {
        match self {
            BackendError::NoArgs => ExitCode::Success,
            BackendError::BadArgs => ExitCode::ErrorPolicy,
            BackendError::NoUri => ExitCode::CancelJob,
            BackendError::IOError(_) => ExitCode::CancelJob,
        }
    }

    /// Maps the error to the outcome reported to the spooler.
    pub fn to_exit_code(&self) -> (code: ExitCode)
        ensures
            code == self.exit_code(),
    {
        match *self {
            BackendError::NoArgs => ExitCode::Success,
            BackendError::BadArgs => ExitCode::ErrorPolicy,
            _ => ExitCode::CancelJob,
        }
    }
}

impl From<std::io::Error> for BackendError {
    fn from(error: std::io::Error) -> (e: BackendError) {
        BackendError::IOError(error)
    }
}

impl vstd::std_specs::convert::FromSpecImpl<std::io::Error> for BackendError {
    open spec fn obeys_from_spec() -> bool {
        true
    }

    open spec fn from_spec(error: std::io::Error) -> BackendError {
        BackendError::IOError(error)
    }
}

/// The exit status of every error: an identification probe succeeds, a
/// malformed invocation is a policy error, and everything else cancels the
/// job. The three statuses in between are never produced by an error.
pub proof fn lemma_error_exit_status(e: BackendError)
    ensures
        e is NoArgs ==> e.exit_code().ordinal() == 0,
        e is BadArgs ==> e.exit_code().ordinal() == 1,
        e is NoUri ==> e.exit_code().ordinal() == 5,
        e is IOError ==> e.exit_code().ordinal() == 5,
        e.exit_code().ordinal() == 0 || e.exit_code().ordinal() == 1
            || e.exit_code().ordinal() == 5,
{
}

} // verus!
