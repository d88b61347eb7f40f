use cupsbackend::backend::{Channel, CupsBackend, DESCRIPTION, NAME};
use cupsbackend::error::BackendError;
use cupsbackend::exit_code::ExitCode;
use cupsbackend::job::{BackendData, ParseStep};
use std::io::{Error, ErrorKind};

fn parse(items: &[&str], uri: Option<&str>) -> Result<BackendData, BackendError> {
    let args: Vec<String> = items.iter().map(|s| s.to_string()).collect();
    match BackendData::parse_args(&args, uri)? {
        ParseStep::Ready(data) => Ok(data),
        ParseStep::NeedsSpool(ticket) => ticket.with_spool(Ok("/tmp/spool".to_string())),
    }
}

#[test]
fn advertisement_line_is_fixed() {
    assert_eq!(NAME, "testbackend");
    assert_eq!(DESCRIPTION, "CUPS backend in Rust");
    assert_eq!(
        CupsBackend::new().advertise(),
        "direct testbackend:// \"Unknown\" \"CUPS backend in Rust\""
    );
}

#[test]
fn usage_line_names_the_arguments() {
    assert_eq!(
        CupsBackend::new().usage("/usr/lib/cups/backend/test"),
        "Usage: /usr/lib/cups/backend/test job-id user title copies options [file]"
    );
}

#[test]
fn probe_is_answered_on_stdout_with_success() {
    let backend = CupsBackend::new();
    let report = backend.dispatch(parse(&["prog"], None), "prog");
    assert_eq!(report.channel, Channel::Advertisement);
    assert_eq!(report.line, "direct testbackend:// \"Unknown\" \"CUPS backend in Rust\"");
    assert_eq!(report.line.lines().count(), 1);
    assert_eq!(report.code, ExitCode::Success);
    assert_eq!(report.code.code(), 0);
}

#[test]
fn malformed_invocation_gets_usage_and_policy_error() {
    let backend = CupsBackend::new();
    let report = backend.dispatch(parse(&["prog", "1"], Some("ipp://h/q")), "prog");
    assert_eq!(report.channel, Channel::Usage);
    assert_eq!(report.line, "Usage: prog job-id user title copies options [file]");
    assert_eq!(report.code.code(), 1);
}

#[test]
fn missing_uri_is_logged_and_cancels() {
    let backend = CupsBackend::new();
    let report = backend.dispatch(parse(&["prog", "1", "u", "t", "1", "a=b"], None), "prog");
    assert_eq!(report.channel, Channel::ErrorLog);
    assert_eq!(report.line, "No printer URI");
    assert_eq!(report.code.code(), 5);
}

#[test]
fn io_error_is_logged_in_its_own_words() {
    let backend = CupsBackend::new();
    let error = BackendError::IOError(Error::new(ErrorKind::Other, "no space left"));
    let report = backend.report_error(&error, "prog");
    assert_eq!(report.channel, Channel::ErrorLog);
    assert_eq!(report.line, "no space left");
    assert_eq!(report.code, ExitCode::CancelJob);
}

#[test]
fn accepted_job_is_announced_and_succeeds() {
    let backend = CupsBackend::new();
    let outcome = parse(&["prog", "1", "u", "Quarterly report", "2", "", "/tmp/q.ps"], Some("ipp://h/q"));
    let report = backend.dispatch(outcome, "prog");
    assert_eq!(report.channel, Channel::InfoLog);
    assert_eq!(report.line, "Processing job: Quarterly report");
    assert_eq!(report.code, ExitCode::Success);
}

#[test]
fn process_data_always_succeeds() {
    let backend = CupsBackend::default();
    let data = parse(&["prog", "1", "u", "", "x", ""], Some("socket://10.0.0.1:9100")).unwrap();
    let report = backend.process_data(data);
    assert_eq!(report.line, "Processing job: untitled");
    assert_eq!(report.code.code(), 0);
}
