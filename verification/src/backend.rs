//! The dispatcher: what the backend says, and with which status it ends, for
//! each way an invocation can turn out.

use vstd::prelude::*;
use vstd::string::StringExecFns;
use crate::error::BackendError;
use crate::exit_code::ExitCode;
use crate::job::BackendData;

verus! {

/// The scheme under which the backend announces itself.
pub const NAME: &'static str = "testbackend";

/// What the backend says of itself.
pub const DESCRIPTION: &'static str = "CUPS backend in Rust";

/// Where a line of the backend's report goes.
#[derive(Debug, Clone, Copy, PartialEq, Eq, Structural)]
pub enum Channel {
    /// Standard output: the line by which the backend identifies itself.
    Advertisement,
    /// Standard error: how to call the backend.
    Usage,
    /// The diagnostic sink, at the level of errors.
    ErrorLog,
    /// The diagnostic sink, at the level of information.
    InfoLog,
}

/// One line to emit, and the status with which the process then ends.
#[derive(Debug)]
pub struct Report {
    pub channel: Channel,
    pub line: String,
    pub code: ExitCode,
}

/// The line by which the backend identifies itself to the spooler.
pub open spec fn advertisement() -> Seq<char> {
    "direct "@ + NAME@ + "://"@ + " \"Unknown\" \""@ + DESCRIPTION@ + "\""@
}

/// The line that tells how to call the program.
pub open spec fn usage_line(program: Seq<char>) -> Seq<char> {
    "Usage: "@ + program + " job-id user title copies options [file]"@
}

/// The line that announces the processing of a job.
pub open spec fn processing_line(title: Seq<char>) -> Seq<char> {
    "Processing job: "@ + title
}

/// The channel on which an error is reported.
pub open spec fn error_channel(error: BackendError) -> Channel {
    match error {
        BackendError::NoArgs => Channel::Advertisement,
        BackendError::BadArgs => Channel::Usage,
        BackendError::NoUri => Channel::ErrorLog,
        BackendError::IOError(_) => Channel::ErrorLog,
    }
}

/// The line by which an error is reported, where the error decides it: an
/// I/O error is reported in its own words.
pub open spec fn error_line(error: BackendError, program: Seq<char>) -> Option<Seq<char>> {
    match error {
        BackendError::NoArgs => Some(advertisement()),
        BackendError::BadArgs => Some(usage_line(program)),
        BackendError::NoUri => Some("No printer URI"@),
        BackendError::IOError(_) => None,
    }
}

/// The backend itself. It holds no state.
#[derive(Debug)]
pub struct CupsBackend;

impl Default for CupsBackend {
    fn default() -> (backend: CupsBackend)
        ensures
            backend == CupsBackend,
    {
        CupsBackend
    }
}

impl CupsBackend {
    /// A backend.
    pub fn new() -> (backend: CupsBackend)
        ensures
            backend == CupsBackend,
    {
        CupsBackend
    }

    /// The line by which the backend identifies itself.
    pub fn advertise(&self) -> (line: String)
        ensures
            line@ == advertisement(),
    {
        String::from_str("direct ").concat(NAME).concat("://").concat(" \"Unknown\" \"").concat(
            DESCRIPTION,
        ).concat("\"")
    }

    /// The line that tells how to call the program.
    pub fn usage(&self, program: &str) -> (line: String)
        ensures
            line@ == usage_line(program@),
    {
        String::from_str("Usage: ").concat(program).concat(
            " job-id user title copies options [file]",
        )
    }

    /// Takes a job request over. The transmission to the device is not part
    /// of this library: the job is announced and counts as done.
    pub fn process_data(&self, data: BackendData) -> (report: Report)
        ensures
            report.channel == Channel::InfoLog,
            report.line@ == processing_line(data.title@),
            report.code == ExitCode::Success,
    {
        Report {
            channel: Channel::InfoLog,
            line: String::from_str("Processing job: ").concat(data.title.as_str()),
            code: ExitCode::Success,
        }
    }

    /// Says how an error is reported: on which channel, in which words, and
    /// with which status the process ends.
    pub fn report_error(&self, error: &BackendError, program: &str) -> (report: Report)
        ensures
            report.channel == error_channel(*error),
            report.code == error.exit_code(),
            error_line(*error, program@) matches Some(line) ==> report.line@ == line,
    {
        let code = error.to_exit_code();
        match error {
            BackendError::NoArgs => Report {
                channel: Channel::Advertisement,
                line: self.advertise(),
                code,
            },
            BackendError::BadArgs => Report {
                channel: Channel::Usage,
                line: self.usage(program),
                code,
            },
            BackendError::NoUri => Report {
                channel: Channel::ErrorLog,
                line: String::from_str("No printer URI"),
                code,
            },
            BackendError::IOError(cause) => Report {
                channel: Channel::ErrorLog,
                line: cause.to_string(),
                code,
            },
        }
    }

    /// Decides how an invocation ends: a request is processed, an error is
    /// reported.
    pub fn dispatch(&self, outcome: Result<BackendData, BackendError>, program: &str) -> (report:
        Report)
        ensures
            match outcome {
                Ok(data) => {
                    &&& report.channel == Channel::InfoLog
                    &&& report.line@ == processing_line(data.title@)
                    &&& report.code == ExitCode::Success
                },
                Err(error) => {
                    &&& report.channel == error_channel(error)
                    &&& report.code == error.exit_code()
                    &&& error_line(error, program@) matches Some(line) ==> report.line@ == line
                },
            },
    {
        match outcome {
            Ok(data) => self.process_data(data),
            Err(error) => self.report_error(&error, program),
        }
    }
}

} // verus!
