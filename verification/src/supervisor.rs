use vstd::prelude::*;

use crate::backoff::{next_delay, Backoff, BACKOFF_FLOOR_MICROS};
use crate::config::PauseConfig;
use crate::engine::{
    all_tags_ready, paused_decision, spec_all_ready, spec_paused_decision,
    spec_streaming_decision, streaming_decision, PausedDecision, PausedEvent, StreamingDecision,
    StreamingEvent,
};
use crate::failure::{spec_classify, AuthFailure, FailureCause, FailureKind};

verus! {

/// Where one source stands in its lifecycle.
#[derive(Clone, Copy, PartialEq, Eq, Structural, Debug)]
pub enum Phase {
    /// No session; the next work is to connect.
    Disconnected,
    /// Transport session up; the next work is to authenticate.
    Connected,
    /// Credentials accepted; the next work is to open the data-plane pull.
    Authenticated,
    /// Stream open; waiting until every tag reports a primed buffer.
    WaitingBuffers,
    /// Live: the streaming race is running.
    Streaming,
    /// Pause decided; the stream is being stopped.
    Pausing,
    /// Suspended: the paused race is running.
    Paused,
    /// Resume decided; the stream is being re-opened.
    Resuming,
    /// A fatal failure ended this source for good.
    Halted,
}

/// A command for the channel of every tag of the source.
#[derive(Clone, Copy, PartialEq, Eq, Structural, Debug)]
pub enum Command {
    ClearBuffer,
    JumpToLive,
    Pause,
    Resume,
}

/// One piece of work the embedder performs on the supervisor's behalf.
#[derive(Clone, Copy, PartialEq, Eq, Structural, Debug)]
pub enum Directive {
    /// Establish the transport session.
    Connect,
    /// Run the credential handshake.
    Authenticate,
    /// Open the data-plane pull.
    StartStream,
    /// Query buffer readiness for every tag, then report one snapshot.
    PollBuffers,
    /// Run the streaming race and report what fired.
    AwaitStreamTriggers,
    /// Halt the data-plane pull, keeping the session.
    StopStream,
    /// Run the paused race and report what fired.
    AwaitPausedTriggers,
    /// Re-open the data-plane pull from the kept session.
    ResumeStream,
    /// Send this command to every tag of the source.
    SendAll(Command),
    /// Force waiting consumers bound to a placeholder element to re-negotiate.
    ClearNotReadySessions,
    /// Sleep this long before retrying from disconnected.
    SleepMicros(u64),
    /// The source is finished; nothing further will be asked.
    Halt,
}

/// The outcome of one supervisor step as fed back by the embedder.
#[derive(Clone, PartialEq, Debug)]
pub enum Event {
    ConnectOk,
    ConnectFailed,
    AuthOk,
    AuthFailed(AuthFailure),
    StreamStartOk,
    StreamStartFailed,
    /// One readiness snapshot: the registry's answer for each tag.
    BufferPoll(Vec<Option<bool>>),
    /// What the streaming race observed.
    Streaming(StreamingEvent),
    StopOk,
    StopFailed,
    /// What the paused race observed.
    Paused(PausedEvent),
    ResumeOk,
    ResumeFailed,
}

/// The per-source retry supervisor: drives the lifecycle, classifies every
/// failure, and applies exponential backoff to the retryable ones.
#[derive(Clone, Copy, Debug)]
pub struct Supervisor {
    /// The pause policy this source was configured with; never changed.
    pub pause: PauseConfig,
    pub phase: Phase,
    pub backoff: Backoff,
}

/// What one step yields: the supervisor after it, the directives it emits,
/// and the failure it handled, classified — if it handled one.
pub struct StepSpec {
    pub next: Supervisor,
    pub emit: Seq<Directive>,
    pub failure: Option<FailureKind>,
}

/// The same supervisor in another phase.
pub open spec fn spec_goto(pre: Supervisor, ph: Phase) -> Supervisor {
    Supervisor { pause: pre.pause, phase: ph, backoff: pre.backoff }
}

/// An uneventful step: nothing emitted, nothing changed.
pub open spec fn spec_stay(pre: Supervisor) -> StepSpec {
    StepSpec { next: pre, emit: seq![], failure: None }
}

/// A step that only moves to another phase.
pub open spec fn spec_advance(pre: Supervisor, ph: Phase) -> StepSpec {
    StepSpec { next: spec_goto(pre, ph), emit: seq![], failure: None }
}

/// Handling a retryable failure: sleep the current delay, double it (capped),
/// and reset to disconnected.
pub open spec fn spec_retry(pre: Supervisor, c: FailureCause) -> StepSpec {
    StepSpec {
        next: Supervisor {
            pause: pre.pause,
            phase: Phase::Disconnected,
            backoff: Backoff { delay_micros: next_delay(pre.backoff.delay_micros) },
        },
        emit: seq![Directive::SleepMicros(pre.backoff.delay_micros)],
        failure: Some(FailureKind::Retryable(c)),
    }
}

/// Handling a fatal failure: the source halts for good.
pub open spec fn spec_halt(pre: Supervisor, c: FailureCause) -> StepSpec {
    StepSpec {
        next: spec_goto(pre, Phase::Halted),
        emit: seq![],
        failure: Some(FailureKind::Fatal(c)),
    }
}

/// The whole transition table of the supervisor.
///
/// Events that do not belong to the current phase change nothing: a trigger
/// that is not part of the running race never fires.
pub open spec fn spec_step(pre: Supervisor, ev: Event) -> StepSpec {
    match pre.phase {
        Phase::Disconnected => match ev {
            Event::ConnectOk => spec_advance(pre, Phase::Connected),
            Event::ConnectFailed => spec_retry(pre, FailureCause::Connect),
            _ => spec_stay(pre),
        },
        Phase::Connected => match ev {
            Event::AuthOk => spec_advance(pre, Phase::Authenticated),
            Event::AuthFailed(f) => {
                if f is Rejected {
                    spec_halt(pre, FailureCause::Auth(f))
                } else {
                    spec_retry(pre, FailureCause::Auth(f))
                }
            },
            _ => spec_stay(pre),
        },
        Phase::Authenticated => match ev {
            Event::StreamStartOk => spec_advance(pre, Phase::WaitingBuffers),
            Event::StreamStartFailed => spec_retry(pre, FailureCause::StreamStart),
            _ => spec_stay(pre),
        },
        Phase::WaitingBuffers => match ev {
            Event::BufferPoll(polls) => {
                if spec_all_ready(polls@) {
                    StepSpec {
                        next: spec_goto(pre, Phase::Streaming),
                        emit: seq![
                            Directive::SendAll(Command::JumpToLive),
                            Directive::ClearNotReadySessions,
                        ],
                        failure: None,
                    }
                } else {
                    spec_stay(pre)
                }
            },
            Event::Streaming(StreamingEvent::Closed) => spec_retry(pre, FailureCause::MidStream),
            _ => spec_stay(pre),
        },
        Phase::Streaming => match ev {
            Event::Streaming(sev) => match spec_streaming_decision(pre.pause, sev) {
                StreamingDecision::Stay => spec_stay(pre),
                StreamingDecision::Pause => StepSpec {
                    next: spec_goto(pre, Phase::Pausing),
                    emit: seq![Directive::SendAll(Command::Pause)],
                    failure: None,
                },
                StreamingDecision::Fail(c) => spec_retry(pre, c),
            },
            _ => spec_stay(pre),
        },
        Phase::Pausing => match ev {
            Event::StopOk => spec_advance(pre, Phase::Paused),
            Event::StopFailed => spec_retry(pre, FailureCause::StopStream),
            _ => spec_stay(pre),
        },
        Phase::Paused => match ev {
            Event::Paused(pev) => match spec_paused_decision(pre.pause, pev) {
                PausedDecision::Stay => spec_stay(pre),
                PausedDecision::Resume => StepSpec {
                    next: spec_goto(pre, Phase::Resuming),
                    emit: seq![Directive::SendAll(Command::JumpToLive)],
                    failure: None,
                },
                PausedDecision::Fail(c) => spec_retry(pre, c),
            },
            _ => spec_stay(pre),
        },
        Phase::Resuming => match ev {
            Event::ResumeOk => StepSpec {
                next: spec_goto(pre, Phase::Streaming),
                emit: seq![Directive::SendAll(Command::Resume)],
                failure: None,
            },
            Event::ResumeFailed => spec_retry(pre, FailureCause::StreamStart),
            _ => spec_stay(pre),
        },
        Phase::Halted => spec_stay(pre),
    }
}

/// The work the embedder owes the supervisor in its current phase.
pub open spec fn spec_next_work(ph: Phase) -> Directive {
    match ph {
        Phase::Disconnected => Directive::Connect,
        Phase::Connected => Directive::Authenticate,
        Phase::Authenticated => Directive::StartStream,
        Phase::WaitingBuffers => Directive::PollBuffers,
        Phase::Streaming => Directive::AwaitStreamTriggers,
        Phase::Pausing => Directive::StopStream,
        Phase::Paused => Directive::AwaitPausedTriggers,
        Phase::Resuming => Directive::ResumeStream,
        Phase::Halted => Directive::Halt,
    }
}

impl Supervisor {
    /// Every supervisor keeps its backoff within bounds.
    pub open spec fn well_formed(self) -> bool {
        self.backoff.well_formed()
    }

    /// A fresh supervisor: disconnected, with the backoff at its floor.
    pub fn new(pause: PauseConfig) -> (s: Supervisor)
        ensures
            s.pause == pause,
            s.phase is Disconnected,
            s.backoff.delay_micros == BACKOFF_FLOOR_MICROS,
            s.well_formed(),
    {
        Supervisor { pause, phase: Phase::Disconnected, backoff: Backoff::new() }
    }

    /// The work owed in the current phase.
    pub fn next_work(&self) -> (d: Directive)
        ensures
            d == spec_next_work(self.phase),
    {
        match self.phase {
            Phase::Disconnected => Directive::Connect,
            Phase::Connected => Directive::Authenticate,
            Phase::Authenticated => Directive::StartStream,
            Phase::WaitingBuffers => Directive::PollBuffers,
            Phase::Streaming => Directive::AwaitStreamTriggers,
            Phase::Pausing => Directive::StopStream,
            Phase::Paused => Directive::AwaitPausedTriggers,
            Phase::Resuming => Directive::ResumeStream,
            Phase::Halted => Directive::Halt,
        }
    }

    /// Handles one retryable failure.
    fn retry(&mut self, c: FailureCause) -> (r: (Vec<Directive>, Option<FailureKind>))
        requires
            old(self).well_formed(),
        ensures
            *final(self) == spec_retry(*old(self), c).next,
            final(self).well_formed(),
            r.0@ == spec_retry(*old(self), c).emit,
            r.1 == spec_retry(*old(self), c).failure,
    {
        let d = self.backoff.current();
        self.backoff.advance();
        self.phase = Phase::Disconnected;
        let mut out: Vec<Directive> = Vec::new();
        out.push(Directive::SleepMicros(d));
        proof {
            assert(out@ =~= seq![Directive::SleepMicros(d)]);
        }
        (out, Some(FailureKind::Retryable(c)))
    }

    /// Feeds one event to the supervisor.  Returns the directives to perform
    /// now (commands to every tag, a clearing of not-ready sessions, or a
    /// backoff sleep) and the failure handled, classified, if the event was
    /// one.  The work owed afterwards is `next_work`.
    pub fn step(&mut self, ev: &Event) -> (r: (Vec<Directive>, Option<FailureKind>))
        requires
            old(self).well_formed(),
        ensures
            *final(self) == spec_step(*old(self), *ev).next,
            final(self).well_formed(),
            r.0@ == spec_step(*old(self), *ev).emit,
            r.1 == spec_step(*old(self), *ev).failure,
    {
        match self.phase {
            Phase::Disconnected => match ev {
                Event::ConnectOk => {
                    self.phase = Phase::Connected;
                    (Vec::new(), None)
                },
                Event::ConnectFailed => self.retry(FailureCause::Connect),
                _ => (Vec::new(), None),
            },
            Phase::Connected => match ev {
                Event::AuthOk => {
                    self.phase = Phase::Authenticated;
                    (Vec::new(), None)
                },
                Event::AuthFailed(f) => match f {
                    AuthFailure::Rejected => {
                        self.phase = Phase::Halted;
                        (Vec::new(), Some(FailureKind::Fatal(FailureCause::Auth(*f))))
                    },
                    _ => self.retry(FailureCause::Auth(*f)),
                },
                _ => (Vec::new(), None),
            },
            Phase::Authenticated => match ev {
                Event::StreamStartOk => {
                    self.phase = Phase::WaitingBuffers;
                    (Vec::new(), None)
                },
                Event::StreamStartFailed => self.retry(FailureCause::StreamStart),
                _ => (Vec::new(), None),
            },
            Phase::WaitingBuffers => match ev {
                Event::BufferPoll(polls) => {
                    if all_tags_ready(polls) {
                        self.phase = Phase::Streaming;
                        let mut out: Vec<Directive> = Vec::new();
                        out.push(Directive::SendAll(Command::JumpToLive));
                        out.push(Directive::ClearNotReadySessions);
                        proof {
                            assert(out@ =~= seq![
                                Directive::SendAll(Command::JumpToLive),
                                Directive::ClearNotReadySessions,
                            ]);
                        }
                        (out, None)
                    } else {
                        (Vec::new(), None)
                    }
                },
                Event::Streaming(StreamingEvent::Closed) => self.retry(FailureCause::MidStream),
                _ => (Vec::new(), None),
            },
            Phase::Streaming => match ev {
                Event::Streaming(sev) => {
                    let d = streaming_decision(&self.pause, sev);
                    match d {
                        StreamingDecision::Stay => (Vec::new(), None),
                        StreamingDecision::Pause => {
                            self.phase = Phase::Pausing;
                            let mut out: Vec<Directive> = Vec::new();
                            out.push(Directive::SendAll(Command::Pause));
                            proof {
                                assert(out@ =~= seq![Directive::SendAll(Command::Pause)]);
                            }
                            (out, None)
                        },
                        StreamingDecision::Fail(c) => self.retry(c),
                    }
                },
                _ => (Vec::new(), None),
            },
            Phase::Pausing => match ev {
                Event::StopOk => {
                    self.phase = Phase::Paused;
                    (Vec::new(), None)
                },
                Event::StopFailed => self.retry(FailureCause::StopStream),
                _ => (Vec::new(), None),
            },
            Phase::Paused => match ev {
                Event::Paused(pev) => {
                    let d = paused_decision(&self.pause, pev);
                    match d {
                        PausedDecision::Stay => (Vec::new(), None),
                        PausedDecision::Resume => {
                            self.phase = Phase::Resuming;
                            let mut out: Vec<Directive> = Vec::new();
                            out.push(Directive::SendAll(Command::JumpToLive));
                            proof {
                                assert(out@ =~= seq![Directive::SendAll(Command::JumpToLive)]);
                            }
                            (out, None)
                        },
                        PausedDecision::Fail(c) => self.retry(c),
                    }
                },
                _ => (Vec::new(), None),
            },
            Phase::Resuming => match ev {
                Event::ResumeOk => {
                    self.phase = Phase::Streaming;
                    let mut out: Vec<Directive> = Vec::new();
                    out.push(Directive::SendAll(Command::Resume));
                    proof {
                        assert(out@ =~= seq![Directive::SendAll(Command::Resume)]);
                    }
                    (out, None)
                },
                Event::ResumeFailed => self.retry(FailureCause::StreamStart),
                _ => (Vec::new(), None),
            },
            Phase::Halted => (Vec::new(), None),
        }
    }
}

/// The supervisor after a whole run: the steps taken over a sequence of
/// events, in order.
pub open spec fn spec_run(s0: Supervisor, evs: Seq<Event>) -> Supervisor
    decreases evs.len(),
{
    if evs.len() == 0 {
        s0
    } else {
        spec_step(spec_run(s0, evs.drop_last()), evs.last()).next
    }
}

/// The phases a source passes before its buffers have ever been confirmed
/// ready (halting from a rejected authentication happens before them too).
pub open spec fn spec_before_live(ph: Phase) -> bool {
    match ph {
        Phase::Disconnected => true,
        Phase::Connected => true,
        Phase::Authenticated => true,
        Phase::WaitingBuffers => true,
        Phase::Halted => true,
        _ => false,
    }
}

/// A readiness snapshot in which every tag answered ready.
pub open spec fn spec_is_ready_poll(ev: Event) -> bool {
    ev matches Event::BufferPoll(polls) && spec_all_ready(polls@)
}

/// A run only reaches the live phases through an all-ready poll answered in
/// the buffer-waiting phase.
pub proof fn lemma_live_needs_ready(s0: Supervisor, evs: Seq<Event>)
    requires
        spec_before_live(s0.phase),
    ensures
        !spec_before_live(spec_run(s0, evs).phase) ==> exists|j: int|
            0 <= j < evs.len() && #[trigger] spec_is_ready_poll(evs[j]) && spec_run(
                s0,
                evs.take(j),
            ).phase is WaitingBuffers,
    decreases evs.len(),
{
    if evs.len() > 0 {
        let prefix = evs.drop_last();
        let pre = spec_run(s0, prefix);
        lemma_live_needs_ready(s0, prefix);
        if !spec_before_live(spec_run(s0, evs).phase) {
            if spec_before_live(pre.phase) {
                let j = evs.len() - 1;
                assert(evs.take(j) =~= prefix);
                assert(pre.phase is WaitingBuffers && spec_is_ready_poll(evs[j]));
            } else {
                let j = choose|j: int|
                    0 <= j < prefix.len() && #[trigger] spec_is_ready_poll(prefix[j]) && spec_run(
                        s0,
                        prefix.take(j),
                    ).phase is WaitingBuffers;
                assert(prefix.take(j) =~= evs.take(j));
                assert(spec_is_ready_poll(evs[j]));
            }
        }
    }
}

/// The steps that emit a jump-to-live: entering streaming on an all-ready
/// poll, or deciding to resume while paused.
pub proof fn lemma_jump_emitters(pre: Supervisor, ev: Event)
    requires
        spec_step(pre, ev).emit.contains(Directive::SendAll(Command::JumpToLive)),
    ensures
        (pre.phase is WaitingBuffers && spec_is_ready_poll(ev)) || pre.phase is Paused,
{
}

/// Jump-to-live is gated on buffer readiness: in any run that starts before
/// the source was ever live, a step whose emitted directives contain the
/// jump-to-live command is preceded by — or is — an all-ready readiness poll
/// answered in the buffer-waiting phase.
pub proof fn lemma_jump_to_live_gated(s0: Supervisor, evs: Seq<Event>, i: int)
    requires
        spec_before_live(s0.phase),
        0 <= i < evs.len(),
        spec_step(spec_run(s0, evs.take(i)), evs[i]).emit.contains(
            Directive::SendAll(Command::JumpToLive),
        ),
    ensures
        exists|j: int|
            0 <= j <= i && #[trigger] spec_is_ready_poll(evs[j]) && spec_run(
                s0,
                evs.take(j),
            ).phase is WaitingBuffers,
{
    let pre = spec_run(s0, evs.take(i));
    lemma_jump_emitters(pre, evs[i]);
    if pre.phase is WaitingBuffers && spec_is_ready_poll(evs[i]) {
        assert(spec_is_ready_poll(evs[i]) && spec_run(s0, evs.take(i)).phase is WaitingBuffers);
    } else {
        lemma_live_needs_ready(s0, evs.take(i));
        let j = choose|j: int|
            0 <= j < evs.take(i).len() && #[trigger] spec_is_ready_poll(evs.take(i)[j])
                && spec_run(s0, evs.take(i).take(j)).phase is WaitingBuffers;
        assert(evs.take(i).take(j) =~= evs.take(j));
        assert(spec_is_ready_poll(evs[j]));
    }
}

/// A step never changes the pause policy, keeps the backoff within its
/// bounds, and never shortens its delay: within one run the backoff is
/// monotonically non-decreasing.
pub proof fn lemma_step_preserves(pre: Supervisor, ev: Event)
    requires
        pre.well_formed(),
    ensures
        spec_step(pre, ev).next.well_formed(),
        spec_step(pre, ev).next.pause == pre.pause,
        spec_step(pre, ev).next.backoff.delay_micros >= pre.backoff.delay_micros,
{
}

/// Every failure a step reports carries the classification of its cause:
/// fatal exactly for a rejected authentication, retryable for everything
/// else.
pub proof fn lemma_failures_follow_classification(pre: Supervisor, ev: Event)
    ensures
        spec_step(pre, ev).failure matches Some(k) ==> {
            &&& (k matches FailureKind::Fatal(c) ==> spec_classify(c) == k)
            &&& (k matches FailureKind::Retryable(c) ==> spec_classify(c) == k)
        },
{
}

/// Handling any retryable failure always resets the supervisor to
/// disconnected — never any other phase — after emitting a sleep of the
/// current backoff delay, and doubles the delay (capped).
pub proof fn lemma_retryable_resets(pre: Supervisor, ev: Event)
    requires
        spec_step(pre, ev).failure matches Some(FailureKind::Retryable(_)),
    ensures
        spec_step(pre, ev).next.phase is Disconnected,
        spec_step(pre, ev).next.backoff.delay_micros == next_delay(pre.backoff.delay_micros),
        spec_step(pre, ev).emit == seq![Directive::SleepMicros(pre.backoff.delay_micros)],
{
}

/// A fatal failure halts the source; nothing is retried.
pub proof fn lemma_fatal_halts(pre: Supervisor, ev: Event)
    requires
        spec_step(pre, ev).failure matches Some(FailureKind::Fatal(_)),
    ensures
        spec_step(pre, ev).next.phase is Halted,
        spec_step(pre, ev).emit == Seq::<Directive>::empty(),
{
}

/// With neither pause trigger configured, the only way to leave streaming is
/// the stream ending or erroring: no event ever pauses the source.
pub proof fn lemma_no_spurious_pause(pre: Supervisor, ev: Event)
    requires
        pre.phase is Streaming,
        !pre.pause.on_motion,
        !pre.pause.on_client,
    ensures
        spec_step(pre, ev).next.phase !is Pausing,
        spec_step(pre, ev).next.phase is Streaming || (ev matches Event::Streaming(sev)
            && sev is Closed && spec_step(pre, ev).next.phase is Disconnected),
{
}

/// With motion pause configured, a motion stop sustained for at least the
/// configured timeout pauses the stream (the pause command goes to every
/// tag); a shorter one changes nothing.
pub proof fn lemma_motion_pause_threshold(pre: Supervisor, sustained: u64)
    requires
        pre.phase is Streaming,
        pre.pause.on_motion,
    ensures
        sustained >= pre.pause.motion_timeout_micros ==> spec_step(
            pre,
            Event::Streaming(StreamingEvent::MotionStopped { sustained_micros: sustained }),
        ).next.phase is Pausing,
        sustained >= pre.pause.motion_timeout_micros ==> spec_step(
            pre,
            Event::Streaming(StreamingEvent::MotionStopped { sustained_micros: sustained }),
        ).emit == seq![Directive::SendAll(Command::Pause)],
        sustained < pre.pause.motion_timeout_micros ==> spec_step(
            pre,
            Event::Streaming(StreamingEvent::MotionStopped { sustained_micros: sustained }),
        ) == spec_stay(pre),
{
}

/// With client pause configured, a consumer total of zero pauses the stream;
/// a positive total changes nothing.
pub proof fn lemma_client_pause(pre: Supervisor, total: usize)
    requires
        pre.phase is Streaming,
        pre.pause.on_client,
    ensures
        total == 0 ==> spec_step(
            pre,
            Event::Streaming(StreamingEvent::Consumers { total }),
        ).next.phase is Pausing,
        total == 0 ==> spec_step(pre, Event::Streaming(StreamingEvent::Consumers { total })).emit
            == seq![Directive::SendAll(Command::Pause)],
        total > 0 ==> spec_step(pre, Event::Streaming(StreamingEvent::Consumers { total }))
            == spec_stay(pre),
{
}

/// With only client pause configured, the return of a consumer while paused
/// starts the resume: jump-to-live goes out to every tag and the stream is
/// re-opened; while no consumer is back, nothing changes.
pub proof fn lemma_client_resume(pre: Supervisor, motion_started: bool, consumers: usize)
    requires
        pre.phase is Paused,
        pre.pause.on_client,
        !pre.pause.on_motion,
    ensures
        consumers > 0 ==> spec_step(
            pre,
            Event::Paused(PausedEvent::Observation { motion_started, consumers }),
        ).next.phase is Resuming,
        consumers > 0 ==> spec_step(
            pre,
            Event::Paused(PausedEvent::Observation { motion_started, consumers }),
        ).emit == seq![Directive::SendAll(Command::JumpToLive)],
        consumers == 0 ==> spec_step(
            pre,
            Event::Paused(PausedEvent::Observation { motion_started, consumers }),
        ) == spec_stay(pre),
{
}

/// A decided resume completes once the stream is re-opened: the source is
/// streaming again and the resume command goes out to every tag.
pub proof fn lemma_resume_completes(pre: Supervisor)
    requires
        pre.phase is Resuming,
    ensures
        spec_step(pre, Event::ResumeOk).next.phase is Streaming,
        spec_step(pre, Event::ResumeOk).emit == seq![Directive::SendAll(Command::Resume)],
{
}

/// An authentication failure is fatal — halting the source — exactly when the
/// source rejected the credentials; every other authentication failure is
/// retryable and resets to disconnected.
pub proof fn lemma_auth_rejection_is_fatal(pre: Supervisor, f: AuthFailure)
    requires
        pre.phase is Connected,
    ensures
        f is Rejected ==> spec_step(pre, Event::AuthFailed(f)).next.phase is Halted,
        f is Rejected ==> spec_step(pre, Event::AuthFailed(f)).failure == Some(
            FailureKind::Fatal(FailureCause::Auth(f)),
        ),
        f !is Rejected ==> spec_step(pre, Event::AuthFailed(f)).next.phase is Disconnected,
        f !is Rejected ==> spec_step(pre, Event::AuthFailed(f)).failure == Some(
            FailureKind::Retryable(FailureCause::Auth(f)),
        ),
{
}

} // verus!
