use vstd::prelude::*;

use crate::config::PauseConfig;
use crate::failure::FailureCause;

verus! {

/// One observation delivered to the streaming race.
///
/// The race holds only the triggers the pause policy enables; an observation
/// belonging to a disabled trigger never changes anything.
#[derive(Clone, Copy, PartialEq, Eq, Structural, Debug)]
pub enum StreamingEvent {
    /// The upstream stream ended or errored.
    Closed,
    /// The motion listener reported motion stopped, sustained this long.
    MotionStopped { sustained_micros: u64 },
    /// A consumer-count poll, summed over all of the source's tags.
    Consumers { total: usize },
    /// The motion listener itself failed.
    ListenerFailed,
    /// A registry query made by the consumer poll failed.
    RegistryFailed,
}

/// What the streaming race decides for one observation.
#[derive(Clone, Copy, PartialEq, Eq, Structural, Debug)]
pub enum StreamingDecision {
    /// Keep streaming.
    Stay,
    /// Suspend the stream.
    Pause,
    /// Unwind to the supervisor with this cause.
    Fail(FailureCause),
}

/// The streaming race: a stream end always unwinds; motion stopped for at
/// least the configured timeout pauses when `on_motion` is set; a consumer
/// total of zero pauses when `on_client` is set; a trigger's own failure
/// unwinds only while that trigger is enabled.
pub open spec fn spec_streaming_decision(p: PauseConfig, ev: StreamingEvent) -> StreamingDecision {
    match ev {
        StreamingEvent::Closed => StreamingDecision::Fail(FailureCause::MidStream),
        StreamingEvent::MotionStopped { sustained_micros } => {
            if p.on_motion && sustained_micros >= p.motion_timeout_micros {
                StreamingDecision::Pause
            } else {
                StreamingDecision::Stay
            }
        },
        StreamingEvent::Consumers { total } => {
            if p.on_client && total == 0 {
                StreamingDecision::Pause
            } else {
                StreamingDecision::Stay
            }
        },
        StreamingEvent::ListenerFailed => {
            if p.on_motion {
                StreamingDecision::Fail(FailureCause::MotionListener)
            } else {
                StreamingDecision::Stay
            }
        },
        StreamingEvent::RegistryFailed => {
            if p.on_client {
                StreamingDecision::Fail(FailureCause::Registry)
            } else {
                StreamingDecision::Stay
            }
        },
    }
}

/// Decides what one streaming-race observation means under this policy.
pub fn streaming_decision(p: &PauseConfig, ev: &StreamingEvent) -> (d: StreamingDecision)
    ensures
        d == spec_streaming_decision(*p, *ev),
{
    match ev {
        StreamingEvent::Closed => StreamingDecision::Fail(FailureCause::MidStream),
        StreamingEvent::MotionStopped { sustained_micros } => {
            if p.on_motion && *sustained_micros >= p.motion_timeout_micros {
                StreamingDecision::Pause
            } else {
                StreamingDecision::Stay
            }
        },
        StreamingEvent::Consumers { total } => {
            if p.on_client && *total == 0 {
                StreamingDecision::Pause
            } else {
                StreamingDecision::Stay
            }
        },
        StreamingEvent::ListenerFailed => {
            if p.on_motion {
                StreamingDecision::Fail(FailureCause::MotionListener)
            } else {
                StreamingDecision::Stay
            }
        },
        StreamingEvent::RegistryFailed => {
            if p.on_client {
                StreamingDecision::Fail(FailureCause::Registry)
            } else {
                StreamingDecision::Stay
            }
        },
    }
}

/// One observation delivered to the paused race.
#[derive(Clone, Copy, PartialEq, Eq, Structural, Debug)]
pub enum PausedEvent {
    /// Facts gathered while paused: whether motion has started again, and the
    /// consumer total over all tags.
    Observation { motion_started: bool, consumers: usize },
    /// The motion listener itself failed.
    ListenerFailed,
    /// A registry query made by the consumer poll failed.
    RegistryFailed,
}

/// What the paused race decides for one observation.
#[derive(Clone, Copy, PartialEq, Eq, Structural, Debug)]
pub enum PausedDecision {
    /// Stay paused.
    Stay,
    /// Re-open the stream.
    Resume,
    /// Unwind to the supervisor with this cause.
    Fail(FailureCause),
}

/// When a paused source resumes: every enabled condition must hold — motion
/// started again if `on_motion`, at least one consumer if `on_client`.  With
/// neither flag set this is always true, so the source resumes at once.
pub open spec fn spec_should_resume(p: PauseConfig, motion_started: bool, consumers: usize) -> bool {
    (!p.on_motion || motion_started) && (!p.on_client || consumers > 0)
}

/// The paused race: resume once every enabled condition holds; a trigger's
/// own failure unwinds only while that trigger is enabled.
pub open spec fn spec_paused_decision(p: PauseConfig, ev: PausedEvent) -> PausedDecision {
    match ev {
        PausedEvent::Observation { motion_started, consumers } => {
            if spec_should_resume(p, motion_started, consumers) {
                PausedDecision::Resume
            } else {
                PausedDecision::Stay
            }
        },
        PausedEvent::ListenerFailed => {
            if p.on_motion {
                PausedDecision::Fail(FailureCause::MotionListener)
            } else {
                PausedDecision::Stay
            }
        },
        PausedEvent::RegistryFailed => {
            if p.on_client {
                PausedDecision::Fail(FailureCause::Registry)
            } else {
                PausedDecision::Stay
            }
        },
    }
}

/// Decides what one paused-race observation means under this policy.
pub fn paused_decision(p: &PauseConfig, ev: &PausedEvent) -> (d: PausedDecision)
    ensures
        d == spec_paused_decision(*p, *ev),
{
    match ev {
        PausedEvent::Observation { motion_started, consumers } => {
            if (!p.on_motion || *motion_started) && (!p.on_client || *consumers > 0) {
                PausedDecision::Resume
            } else {
                PausedDecision::Stay
            }
        },
        PausedEvent::ListenerFailed => {
            if p.on_motion {
                PausedDecision::Fail(FailureCause::MotionListener)
            } else {
                PausedDecision::Stay
            }
        },
        PausedEvent::RegistryFailed => {
            if p.on_client {
                PausedDecision::Fail(FailureCause::Registry)
            } else {
                PausedDecision::Stay
            }
        },
    }
}

/// All tags are ready: every poll answered, and every answer was `true`.
/// An unanswered or failed query counts as not ready, never as an error.
pub open spec fn spec_all_ready(polls: Seq<Option<bool>>) -> bool {
    forall|i: int| 0 <= i < polls.len() ==> polls[i] == Some(true)
}

/// Folds one readiness snapshot, one answer per tag, into "all ready".
pub fn all_tags_ready(polls: &Vec<Option<bool>>) -> (r: bool)
    ensures
        r == spec_all_ready(polls@),
{
    let mut i: usize = 0;
    while i < polls.len()
        invariant
            0 <= i <= polls@.len(),
            forall|j: int| 0 <= j < i ==> polls@[j] == Some(true),
        decreases polls@.len() - i,
    {
        match polls[i] {
            Some(true) => {},
            _ => {
                return false;
            },
        }
        i += 1;
    }
    true
}

/// The consumer total of one snapshot, saturating at `usize::MAX`; a failed
/// query contributes nothing.
pub open spec fn spec_consumer_total(counts: Seq<Option<usize>>) -> usize
    decreases counts.len(),
{
    if counts.len() == 0 {
        0
    } else {
        let rest = spec_consumer_total(counts.drop_last());
        let last: usize = match counts.last() {
            Some(c) => c,
            None => 0,
        };
        if rest + last <= usize::MAX {
            (rest + last) as usize
        } else {
            usize::MAX
        }
    }
}

/// Sums a consumer-count snapshot, one answer per tag, saturating; a failed
/// query counts as zero consumers.
pub fn consumer_total(counts: &Vec<Option<usize>>) -> (total: usize)
    ensures
        total == spec_consumer_total(counts@),
{
    let mut total: usize = 0;
    let mut i: usize = 0;
    while i < counts.len()
        invariant
            0 <= i <= counts@.len(),
            total == spec_consumer_total(counts@.take(i as int)),
        decreases counts@.len() - i,
    {
        let c: usize = match counts[i] {
            Some(c) => c,
            None => 0,
        };
        total = total.saturating_add(c);
        proof {
            assert(counts@.take(i + 1 as int).drop_last() =~= counts@.take(i as int));
            assert(counts@.take(i + 1 as int).last() == counts@[i as int]);
        }
        i += 1;
    }
    proof {
        assert(counts@.take(counts@.len() as int) =~= counts@);
    }
    total
}

/// A consumer total is zero exactly when no tag reported a consumer.
pub proof fn lemma_consumer_total_zero(counts: Seq<Option<usize>>)
    ensures
        spec_consumer_total(counts) == 0 <==> forall|i: int|
            0 <= i < counts.len() ==> ((#[trigger] counts[i]) matches Some(c) ==> c == 0),
    decreases counts.len(),
{
    if counts.len() > 0 {
        let rest = counts.drop_last();
        lemma_consumer_total_zero(rest);
        if spec_consumer_total(counts) == 0 {
            assert(spec_consumer_total(rest) == 0);
            assert forall|i: int|
                0 <= i < counts.len() implies ((#[trigger] counts[i]) matches Some(c)
                ==> c == 0) by {
                if i < counts.len() - 1 {
                    assert(rest[i] == counts[i]);
                } else {
                    assert(counts[i] == counts.last());
                }
            }
        }
        if forall|i: int|
            0 <= i < counts.len() ==> ((#[trigger] counts[i]) matches Some(c) ==> c == 0) {
            assert forall|i: int|
                0 <= i < rest.len() implies ((#[trigger] rest[i]) matches Some(c)
                ==> c == 0) by {
                assert(rest[i] == counts[i]);
                assert(counts[i] matches Some(c) ==> c == 0);
            }
            assert(spec_consumer_total(rest) == 0);
            assert(counts[counts.len() - 1] == counts.last());
            assert(counts.last() matches Some(c) ==> c == 0);
            assert(spec_consumer_total(counts) == 0);
        }
    }
}

} // verus!
