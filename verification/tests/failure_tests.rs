use stream_supervisor::failure::{classify, AuthFailure, FailureCause, FailureKind};

#[test]
fn auth_rejected_is_fatal() {
    let c = FailureCause::Auth(AuthFailure::Rejected);
    assert_eq!(classify(c), FailureKind::Fatal(c));
}

#[test]
fn other_auth_failures_are_retryable() {
    for f in [AuthFailure::Timeout, AuthFailure::Dropped, AuthFailure::Malformed] {
        let c = FailureCause::Auth(f);
        assert_eq!(classify(c), FailureKind::Retryable(c));
    }
}

#[test]
fn non_auth_failures_are_retryable() {
    for c in [
        FailureCause::Connect,
        FailureCause::StreamStart,
        FailureCause::MidStream,
        FailureCause::StopStream,
        FailureCause::MotionListener,
        FailureCause::Registry,
    ] {
        assert_eq!(classify(c), FailureKind::Retryable(c));
    }
}
