use stream_supervisor::sessions::{
    count_path_users, full_match, media_on_paths, session_closed, MediaObservation,
};

#[test]
fn full_match_needs_whole_path() {
    assert!(full_match(Some(5), 5));
    assert!(!full_match(Some(4), 5));
    assert!(!full_match(None, 5));
    assert!(!full_match(Some(-1), 0));
}

#[test]
fn media_matches_any_of_the_paths() {
    // Lengths of "/cam" and "/cam/sub".
    let lens = vec![4usize, 8usize];
    assert!(media_on_paths(&vec![Some(2), Some(8)], &lens));
    assert!(media_on_paths(&vec![Some(4), None], &lens));
    assert!(!media_on_paths(&vec![Some(3), Some(7)], &lens));
    assert!(!media_on_paths(&vec![None, None], &lens));
}

#[test]
fn clearing_can_spare_live_media() {
    let lens = vec![4usize];
    let live = MediaObservation { matched: vec![Some(4)], placeholder: false };
    let placeholder = MediaObservation { matched: vec![Some(4)], placeholder: true };
    let elsewhere = MediaObservation { matched: vec![Some(2)], placeholder: true };
    // A sweep over the paths clears both media on them...
    assert!(live.cleared(&lens, false));
    assert!(placeholder.cleared(&lens, false));
    assert!(!elsewhere.cleared(&lens, false));
    // ...while the not-ready sweep clears only the placeholder-bound one.
    assert!(!live.cleared(&lens, true));
    assert!(placeholder.cleared(&lens, true));
    assert!(!elsewhere.cleared(&lens, true));
}

#[test]
fn session_closes_when_any_media_is_cleared() {
    let lens = vec![4usize];
    let on_path = MediaObservation { matched: vec![Some(4)], placeholder: true };
    let off_path = MediaObservation { matched: vec![None], placeholder: true };
    assert!(session_closed(&vec![off_path, on_path], &lens, true));
    let off_a = MediaObservation { matched: vec![None], placeholder: true };
    let off_b = MediaObservation { matched: vec![Some(1)], placeholder: false };
    assert!(!session_closed(&vec![off_a, off_b], &lens, false));
    assert!(!session_closed(&vec![], &lens, false));
}

#[test]
fn counting_users_on_paths() {
    let lens = vec![4usize, 8usize];
    let medias = vec![
        MediaObservation { matched: vec![Some(4), None], placeholder: false },
        MediaObservation { matched: vec![Some(3), Some(7)], placeholder: false },
        MediaObservation { matched: vec![None, Some(8)], placeholder: true },
    ];
    assert_eq!(count_path_users(&medias, &lens), 2);
    assert_eq!(count_path_users(&vec![], &lens), 0);
}
