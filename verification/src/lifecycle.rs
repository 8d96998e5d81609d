use vstd::prelude::*;

verus! {

/// The lifecycle of one source's upstream connection.
///
/// Sessions and stream handles are identified by tokens the embedder
/// assigns; the states carry them so the contracts can say which session a
/// state was built from.  Every transition consumes the prior state by
/// value, so a source has at most one reachable state at a time and no
/// stale session can be used again.
#[derive(Clone, Copy, PartialEq, Eq, Structural, Debug)]
pub enum LifecycleState {
    /// No session.  The initial state, and the state re-entered after any
    /// retryable failure.
    Disconnected,
    /// A transport-level session is up.
    Connected { session: u64 },
    /// The credential handshake succeeded on the session.
    Authenticated { session: u64 },
    /// The data-plane pull is open on the session.
    Streaming { session: u64, handle: u64 },
    /// The pull is halted; the authenticated session is kept.
    Paused { session: u64 },
}

/// A successful connect: a new session on a disconnected source.
pub fn connect_ok(s: LifecycleState, session: u64) -> (r: LifecycleState)
    requires
        s is Disconnected,
    ensures
        r == (LifecycleState::Connected { session }),
{
    LifecycleState::Connected { session }
}

/// A successful handshake: the same session, now authenticated.
pub fn authenticate_ok(s: LifecycleState) -> (r: LifecycleState)
    requires
        s is Connected,
    ensures
        r == (LifecycleState::Authenticated { session: s->Connected_session }),
{
    match s {
        LifecycleState::Connected { session } => LifecycleState::Authenticated { session },
        _ => s,
    }
}

/// A successful stream start: the same session, pulling through a new
/// handle.
pub fn start_stream_ok(s: LifecycleState, handle: u64) -> (r: LifecycleState)
    requires
        s is Authenticated,
    ensures
        r == (LifecycleState::Streaming { session: s->Authenticated_session, handle }),
{
    match s {
        LifecycleState::Authenticated { session } => LifecycleState::Streaming {
            session,
            handle,
        },
        _ => s,
    }
}

/// A successful stop: the handle is discarded, the authenticated session
/// kept.
pub fn stop_ok(s: LifecycleState) -> (r: LifecycleState)
    requires
        s is Streaming,
    ensures
        r == (LifecycleState::Paused { session: s->Streaming_session }),
{
    match s {
        LifecycleState::Streaming { session, .. } => LifecycleState::Paused { session },
        _ => s,
    }
}

/// A successful resume: the pull re-opens on the kept session, through a
/// new handle — no re-authentication.
pub fn resume_ok(s: LifecycleState, handle: u64) -> (r: LifecycleState)
    requires
        s is Paused,
    ensures
        r == (LifecycleState::Streaming { session: s->Paused_session, handle }),
{
    match s {
        LifecycleState::Paused { session } => LifecycleState::Streaming { session, handle },
        _ => s,
    }
}

/// The session a state holds, if any.
pub open spec fn spec_session_of(s: LifecycleState) -> Option<u64> {
    match s {
        LifecycleState::Disconnected => None,
        LifecycleState::Connected { session } => Some(session),
        LifecycleState::Authenticated { session } => Some(session),
        LifecycleState::Streaming { session, .. } => Some(session),
        LifecycleState::Paused { session } => Some(session),
    }
}

/// The streaming–paused cycle never changes the session: however often a
/// source is stopped and resumed, it keeps the session it authenticated.
pub proof fn lemma_cycle_keeps_session(s: LifecycleState, handle: u64)
    requires
        s is Streaming,
    ensures
        spec_session_of(stop_spec(s)) == spec_session_of(s),
        spec_session_of(resume_spec(stop_spec(s), handle)) == spec_session_of(s),
{
}

/// What `stop_ok` yields.
pub open spec fn stop_spec(s: LifecycleState) -> LifecycleState
    recommends
        s is Streaming,
{
    LifecycleState::Paused { session: s->Streaming_session }
}

/// What `resume_ok` yields.
pub open spec fn resume_spec(s: LifecycleState, handle: u64) -> LifecycleState
    recommends
        s is Paused,
{
    LifecycleState::Streaming { session: s->Paused_session, handle }
}

} // verus!
