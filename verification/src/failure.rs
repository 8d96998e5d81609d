use vstd::prelude::*;

verus! {

/// Why an authentication handshake failed.
#[derive(Clone, Copy, PartialEq, Eq, Structural, Debug)]
pub enum AuthFailure {
    /// The source reported that the credentials were rejected.
    Rejected,
    /// The handshake timed out.
    Timeout,
    /// The transport dropped during the handshake.
    Dropped,
    /// The source answered with something the handshake could not read.
    Malformed,
}

/// Where in a supervisor's run a failure arose.
#[derive(Clone, Copy, PartialEq, Eq, Structural, Debug)]
pub enum FailureCause {
    /// Establishing the transport-level session failed.
    Connect,
    /// The credential handshake failed.
    Auth(AuthFailure),
    /// Opening the data-plane pull failed.
    StreamStart,
    /// The running stream ended or errored.
    MidStream,
    /// Halting the data-plane pull failed.
    StopStream,
    /// The motion listener failed.
    MotionListener,
    /// A registry query made during a race failed.
    Registry,
}

/// A classified failure: fatal stops the source for good, retryable resets it
/// to disconnected and retries after backoff.
#[derive(Clone, Copy, PartialEq, Eq, Structural, Debug)]
pub enum FailureKind {
    Fatal(FailureCause),
    Retryable(FailureCause),
}

/// The one fatal cause: the source rejected the credentials.  Every other
/// failure, in every phase, is retryable.
pub open spec fn spec_is_fatal(c: FailureCause) -> bool {
    c matches FailureCause::Auth(f) && f is Rejected
}

/// The classification applied to every failure the supervisor handles.
pub open spec fn spec_classify(c: FailureCause) -> FailureKind {
    if spec_is_fatal(c) {
        FailureKind::Fatal(c)
    } else {
        FailureKind::Retryable(c)
    }
}

/// Classifies a failure, keeping its cause.
pub fn classify(c: FailureCause) -> (k: FailureKind)
    ensures
        k == spec_classify(c),
{
    match c {
        FailureCause::Auth(AuthFailure::Rejected) => FailureKind::Fatal(c),
        _ => FailureKind::Retryable(c),
    }
}

/// An authentication failure is fatal exactly when the source rejected the
/// credentials; every other authentication failure is retryable.
pub proof fn lemma_auth_classification(f: AuthFailure)
    ensures
        f is Rejected ==> spec_classify(FailureCause::Auth(f))
            == FailureKind::Fatal(FailureCause::Auth(f)),
        f !is Rejected ==> spec_classify(FailureCause::Auth(f))
            == FailureKind::Retryable(FailureCause::Auth(f)),
{
}

/// No failure outside the authentication phase is ever fatal.
pub proof fn lemma_only_auth_is_fatal(c: FailureCause)
    ensures
        spec_classify(c) is Fatal ==> c matches FailureCause::Auth(AuthFailure::Rejected),
{
}

} // verus!
