use stream_supervisor::config::{PauseConfig, PauseMode};
use stream_supervisor::engine::{PausedEvent, StreamingEvent};
use stream_supervisor::failure::{AuthFailure, FailureCause, FailureKind};
use stream_supervisor::supervisor::{Command, Directive, Event, Phase, Supervisor};

fn policy(on_motion: bool, on_client: bool, timeout: u64) -> PauseConfig {
    PauseConfig {
        on_motion,
        on_client,
        mode: PauseMode::Passthrough,
        motion_timeout_micros: timeout,
    }
}

/// Drives a fresh supervisor through connect, authenticate and stream
/// start, leaving it waiting on buffer readiness.
fn to_waiting(p: PauseConfig) -> Supervisor {
    let mut sup = Supervisor::new(p);
    assert_eq!(sup.next_work(), Directive::Connect);
    let (out, f) = sup.step(&Event::ConnectOk);
    assert!(out.is_empty());
    assert_eq!(f, None);
    assert_eq!(sup.next_work(), Directive::Authenticate);
    let (out, f) = sup.step(&Event::AuthOk);
    assert!(out.is_empty());
    assert_eq!(f, None);
    assert_eq!(sup.next_work(), Directive::StartStream);
    let (out, f) = sup.step(&Event::StreamStartOk);
    assert!(out.is_empty());
    assert_eq!(f, None);
    assert_eq!(sup.phase, Phase::WaitingBuffers);
    assert_eq!(sup.next_work(), Directive::PollBuffers);
    sup
}

#[test]
fn streaming_scenario_without_pause_flags() {
    // One source, two tags, no pause policy: the buffers become ready on the
    // third poll; jump-to-live goes out once, no pause is ever commanded,
    // and a stream error retries with the initial backoff delay.
    let mut sup = to_waiting(policy(false, false, 1_000_000));
    let (out, f) = sup.step(&Event::BufferPoll(vec![Some(false), None]));
    assert!(out.is_empty());
    assert_eq!(f, None);
    let (out, f) = sup.step(&Event::BufferPoll(vec![Some(true), Some(false)]));
    assert!(out.is_empty());
    assert_eq!(f, None);
    assert_eq!(sup.phase, Phase::WaitingBuffers);
    let (out, f) = sup.step(&Event::BufferPoll(vec![Some(true), Some(true)]));
    assert_eq!(
        out,
        vec![Directive::SendAll(Command::JumpToLive), Directive::ClearNotReadySessions]
    );
    assert_eq!(f, None);
    assert_eq!(sup.phase, Phase::Streaming);
    assert_eq!(sup.next_work(), Directive::AwaitStreamTriggers);

    // No event but a stream close moves it, and nothing is commanded.
    let (out, f) = sup.step(&Event::Streaming(StreamingEvent::Consumers { total: 0 }));
    assert!(out.is_empty());
    assert_eq!(f, None);
    let (out, f) = sup.step(&Event::Streaming(StreamingEvent::MotionStopped {
        sustained_micros: u64::MAX,
    }));
    assert!(out.is_empty());
    assert_eq!(f, None);
    assert_eq!(sup.phase, Phase::Streaming);

    // The stream errors: one retry, slept at the floor delay.
    let (out, f) = sup.step(&Event::Streaming(StreamingEvent::Closed));
    assert_eq!(out, vec![Directive::SleepMicros(125)]);
    assert_eq!(f, Some(FailureKind::Retryable(FailureCause::MidStream)));
    assert_eq!(sup.phase, Phase::Disconnected);
    assert_eq!(sup.backoff.delay_micros, 250);
}

#[test]
fn client_pause_scenario() {
    // One source with pause-on-client; consumer counts 1, 1, 0, 0, 2 give a
    // single pause at the first zero and a single resume (with one
    // jump-to-live) at the two.
    let mut sup = to_waiting(policy(false, true, 1_000_000));
    let (out, _) = sup.step(&Event::BufferPoll(vec![Some(true)]));
    assert_eq!(
        out,
        vec![Directive::SendAll(Command::JumpToLive), Directive::ClearNotReadySessions]
    );

    let (out, f) = sup.step(&Event::Streaming(StreamingEvent::Consumers { total: 1 }));
    assert!(out.is_empty());
    assert_eq!(f, None);
    let (out, _) = sup.step(&Event::Streaming(StreamingEvent::Consumers { total: 1 }));
    assert!(out.is_empty());

    let (out, f) = sup.step(&Event::Streaming(StreamingEvent::Consumers { total: 0 }));
    assert_eq!(out, vec![Directive::SendAll(Command::Pause)]);
    assert_eq!(f, None);
    assert_eq!(sup.phase, Phase::Pausing);
    assert_eq!(sup.next_work(), Directive::StopStream);

    let (out, f) = sup.step(&Event::StopOk);
    assert!(out.is_empty());
    assert_eq!(f, None);
    assert_eq!(sup.phase, Phase::Paused);
    assert_eq!(sup.next_work(), Directive::AwaitPausedTriggers);

    let (out, f) = sup.step(&Event::Paused(PausedEvent::Observation {
        motion_started: false,
        consumers: 0,
    }));
    assert!(out.is_empty());
    assert_eq!(f, None);
    assert_eq!(sup.phase, Phase::Paused);

    let (out, f) = sup.step(&Event::Paused(PausedEvent::Observation {
        motion_started: false,
        consumers: 2,
    }));
    assert_eq!(out, vec![Directive::SendAll(Command::JumpToLive)]);
    assert_eq!(f, None);
    assert_eq!(sup.phase, Phase::Resuming);
    assert_eq!(sup.next_work(), Directive::ResumeStream);

    let (out, f) = sup.step(&Event::ResumeOk);
    assert_eq!(out, vec![Directive::SendAll(Command::Resume)]);
    assert_eq!(f, None);
    assert_eq!(sup.phase, Phase::Streaming);
}

#[test]
fn motion_pause_scenario() {
    // A sustained motion stop of at least the timeout pauses; a shorter one
    // does not.
    let mut sup = to_waiting(policy(true, false, 2_000_000));
    let (_, _) = sup.step(&Event::BufferPoll(vec![Some(true)]));
    let (out, f) = sup.step(&Event::Streaming(StreamingEvent::MotionStopped {
        sustained_micros: 1_999_999,
    }));
    assert!(out.is_empty());
    assert_eq!(f, None);
    assert_eq!(sup.phase, Phase::Streaming);
    let (out, f) = sup.step(&Event::Streaming(StreamingEvent::MotionStopped {
        sustained_micros: 2_000_000,
    }));
    assert_eq!(out, vec![Directive::SendAll(Command::Pause)]);
    assert_eq!(f, None);
    assert_eq!(sup.phase, Phase::Pausing);
}

#[test]
fn rejected_authentication_halts_for_good() {
    let mut sup = Supervisor::new(policy(false, false, 0));
    let (_, _) = sup.step(&Event::ConnectOk);
    let (out, f) = sup.step(&Event::AuthFailed(AuthFailure::Rejected));
    assert!(out.is_empty());
    assert_eq!(
        f,
        Some(FailureKind::Fatal(FailureCause::Auth(AuthFailure::Rejected)))
    );
    assert_eq!(sup.phase, Phase::Halted);
    assert_eq!(sup.next_work(), Directive::Halt);
    // Nothing moves a halted source.
    let (out, f) = sup.step(&Event::ConnectOk);
    assert!(out.is_empty());
    assert_eq!(f, None);
    assert_eq!(sup.phase, Phase::Halted);
}

#[test]
fn other_authentication_failures_retry() {
    for auth in [AuthFailure::Timeout, AuthFailure::Dropped, AuthFailure::Malformed] {
        let mut sup = Supervisor::new(policy(false, false, 0));
        let (_, _) = sup.step(&Event::ConnectOk);
        let (out, f) = sup.step(&Event::AuthFailed(auth));
        assert_eq!(out, vec![Directive::SleepMicros(125)]);
        assert_eq!(f, Some(FailureKind::Retryable(FailureCause::Auth(auth))));
        assert_eq!(sup.phase, Phase::Disconnected);
    }
}

#[test]
fn every_retryable_failure_resets_and_backs_off() {
    // connect, stream-start, stop and resume failures, a stream error while
    // waiting on buffers, and enabled trigger failures all reset to
    // disconnected, sleeping the current delay and doubling it.
    let p = policy(true, true, 1_000_000);

    let mut sup = Supervisor::new(p);
    let (out, f) = sup.step(&Event::ConnectFailed);
    assert_eq!(out, vec![Directive::SleepMicros(125)]);
    assert_eq!(f, Some(FailureKind::Retryable(FailureCause::Connect)));
    assert_eq!(sup.phase, Phase::Disconnected);
    assert_eq!(sup.backoff.delay_micros, 250);
    // A second consecutive failure sleeps the doubled delay.
    let (out, _) = sup.step(&Event::ConnectFailed);
    assert_eq!(out, vec![Directive::SleepMicros(250)]);
    assert_eq!(sup.backoff.delay_micros, 500);

    let mut sup = Supervisor::new(p);
    let (_, _) = sup.step(&Event::ConnectOk);
    let (_, _) = sup.step(&Event::AuthOk);
    let (_, f) = sup.step(&Event::StreamStartFailed);
    assert_eq!(f, Some(FailureKind::Retryable(FailureCause::StreamStart)));
    assert_eq!(sup.phase, Phase::Disconnected);

    let mut sup = to_waiting(p);
    let (_, f) = sup.step(&Event::Streaming(StreamingEvent::Closed));
    assert_eq!(f, Some(FailureKind::Retryable(FailureCause::MidStream)));
    assert_eq!(sup.phase, Phase::Disconnected);

    let mut sup = to_waiting(p);
    let (_, _) = sup.step(&Event::BufferPoll(vec![Some(true)]));
    let (_, f) = sup.step(&Event::Streaming(StreamingEvent::ListenerFailed));
    assert_eq!(f, Some(FailureKind::Retryable(FailureCause::MotionListener)));
    assert_eq!(sup.phase, Phase::Disconnected);

    let mut sup = to_waiting(p);
    let (_, _) = sup.step(&Event::BufferPoll(vec![Some(true)]));
    let (_, _) = sup.step(&Event::Streaming(StreamingEvent::Consumers { total: 0 }));
    let (_, f) = sup.step(&Event::StopFailed);
    assert_eq!(f, Some(FailureKind::Retryable(FailureCause::StopStream)));
    assert_eq!(sup.phase, Phase::Disconnected);

    let mut sup = to_waiting(p);
    let (_, _) = sup.step(&Event::BufferPoll(vec![Some(true)]));
    let (_, _) = sup.step(&Event::Streaming(StreamingEvent::Consumers { total: 0 }));
    let (_, _) = sup.step(&Event::StopOk);
    let (_, f) = sup.step(&Event::Paused(PausedEvent::RegistryFailed));
    assert_eq!(f, Some(FailureKind::Retryable(FailureCause::Registry)));
    assert_eq!(sup.phase, Phase::Disconnected);

    let mut sup = to_waiting(p);
    let (_, _) = sup.step(&Event::BufferPoll(vec![Some(true)]));
    let (_, _) = sup.step(&Event::Streaming(StreamingEvent::Consumers { total: 0 }));
    let (_, _) = sup.step(&Event::StopOk);
    let (_, _) = sup.step(&Event::Paused(PausedEvent::Observation {
        motion_started: true,
        consumers: 1,
    }));
    let (_, f) = sup.step(&Event::ResumeFailed);
    assert_eq!(f, Some(FailureKind::Retryable(FailureCause::StreamStart)));
    assert_eq!(sup.phase, Phase::Disconnected);
}

#[test]
fn buffer_wait_failure_retries() {
    let mut sup = to_waiting(policy(false, false, 0));
    let (out, f) = sup.step(&Event::Streaming(StreamingEvent::Closed));
    assert_eq!(out, vec![Directive::SleepMicros(125)]);
    assert_eq!(f, Some(FailureKind::Retryable(FailureCause::MidStream)));
    assert_eq!(sup.phase, Phase::Disconnected);
}

#[test]
fn resume_skips_buffer_wait() {
    // Resuming from paused re-opens the stream directly: no readiness wait
    // and no second clearing of not-ready sessions.
    let mut sup = to_waiting(policy(false, true, 0));
    let (_, _) = sup.step(&Event::BufferPoll(vec![Some(true)]));
    let (_, _) = sup.step(&Event::Streaming(StreamingEvent::Consumers { total: 0 }));
    let (_, _) = sup.step(&Event::StopOk);
    let (_, _) = sup.step(&Event::Paused(PausedEvent::Observation {
        motion_started: false,
        consumers: 1,
    }));
    let (out, _) = sup.step(&Event::ResumeOk);
    assert_eq!(out, vec![Directive::SendAll(Command::Resume)]);
    assert_eq!(sup.phase, Phase::Streaming);
    assert_eq!(sup.next_work(), Directive::AwaitStreamTriggers);
}
