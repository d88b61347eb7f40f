use cupsbackend::error::BackendError;
use cupsbackend::exit_code::ExitCode;
use std::io::{Error, ErrorKind};

#[test]
fn exit_codes_have_protocol_ordinals() {
    assert_eq!(ExitCode::Success.code(), 0);
    assert_eq!(ExitCode::ErrorPolicy.code(), 1);
    assert_eq!(ExitCode::AuthRequired.code(), 2);
    assert_eq!(ExitCode::HoldJob.code(), 3);
    assert_eq!(ExitCode::StopQueue.code(), 4);
    assert_eq!(ExitCode::CancelJob.code(), 5);
}

#[test]
fn exit_codes_are_pairwise_distinct() {
    let all = [
        ExitCode::Success,
        ExitCode::ErrorPolicy,
        ExitCode::AuthRequired,
        ExitCode::HoldJob,
        ExitCode::StopQueue,
        ExitCode::CancelJob,
    ];
    for (i, a) in all.iter().enumerate() {
        for (j, b) in all.iter().enumerate() {
            assert_eq!(a == b, i == j);
            assert_eq!(a.code() == b.code(), i == j);
        }
    }
}

#[test]
fn no_args_exits_with_success() {
    assert_eq!(BackendError::NoArgs.to_exit_code(), ExitCode::Success);
    assert_eq!(BackendError::NoArgs.to_exit_code().code(), 0);
}

#[test]
fn bad_args_exits_with_policy_error() {
    assert_eq!(BackendError::BadArgs.to_exit_code(), ExitCode::ErrorPolicy);
    assert_eq!(BackendError::BadArgs.to_exit_code().code(), 1);
}

#[test]
fn no_uri_cancels_the_job() {
    assert_eq!(BackendError::NoUri.to_exit_code(), ExitCode::CancelJob);
    assert_eq!(BackendError::NoUri.to_exit_code().code(), 5);
}

#[test]
fn io_error_cancels_the_job() {
    let e = BackendError::IOError(Error::new(ErrorKind::Other, "disk full"));
    assert_eq!(e.to_exit_code(), ExitCode::CancelJob);
    assert_eq!(e.to_exit_code().code(), 5);
}

#[test]
fn io_error_converts_and_keeps_its_detail() {
    let e = BackendError::from(Error::new(ErrorKind::UnexpectedEof, "short read"));
    match e {
        BackendError::IOError(inner) => {
            assert_eq!(inner.kind(), ErrorKind::UnexpectedEof);
            assert_eq!(inner.to_string(), "short read");
        }
        other => panic!("unexpected error {:?}", other),
    }
}
