use stream_supervisor::lifecycle::{
    authenticate_ok, connect_ok, resume_ok, start_stream_ok, stop_ok, LifecycleState,
};

#[test]
fn transitions_follow_the_lifecycle() {
    let s = LifecycleState::Disconnected;
    let s = connect_ok(s, 7);
    assert_eq!(s, LifecycleState::Connected { session: 7 });
    let s = authenticate_ok(s);
    assert_eq!(s, LifecycleState::Authenticated { session: 7 });
    let s = start_stream_ok(s, 1);
    assert_eq!(s, LifecycleState::Streaming { session: 7, handle: 1 });
    let s = stop_ok(s);
    assert_eq!(s, LifecycleState::Paused { session: 7 });
    let s = resume_ok(s, 2);
    // The cycle kept the session: no re-authentication, only a new handle.
    assert_eq!(s, LifecycleState::Streaming { session: 7, handle: 2 });
}
