//! The exit statuses a backend may hand back to the spooler.

use vstd::prelude::*;

verus! {

/// Outcome of one backend invocation. The position of each variant is the
/// literal process exit status, so it is part of the protocol.
#[derive(Debug, Clone, Copy, PartialEq, Eq, Structural)]
pub enum ExitCode {
    Success,
    ErrorPolicy,
    AuthRequired,
    HoldJob,
    StopQueue,
    CancelJob,
}

impl ExitCode {
    /// The process exit status that stands for this outcome.
    pub open spec fn ordinal(self) -> int {
        match self {
            ExitCode::Success => 0,
            ExitCode::ErrorPolicy => 1,
            ExitCode::AuthRequired => 2,
            ExitCode::HoldJob => 3,
            ExitCode::StopQueue => 4,
            ExitCode::CancelJob => 5,
        }
    }

    /// The process exit status as the integer handed to the operating system.
    pub fn code(&self) -> (status: i32)
        ensures
            status == self.ordinal(),
    {
        match self {
            ExitCode::Success => 0,
            ExitCode::ErrorPolicy => 1,
            ExitCode::AuthRequired => 2,
            ExitCode::HoldJob => 3,
            ExitCode::StopQueue => 4,
            ExitCode::CancelJob => 5,
        }
    }
}

/// Distinct outcomes have distinct exit statuses, and every status lies in
/// the range zero to five.
pub proof fn lemma_ordinal_injective(a: ExitCode, b: ExitCode)
    ensures
        0 <= a.ordinal() <= 5,
        a.ordinal() == b.ordinal() <==> a == b,
{
}

} // verus!
