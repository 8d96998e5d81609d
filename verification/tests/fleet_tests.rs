use stream_supervisor::fleet::{exit_cleanly, shuts_down_fleet, TaskOutcome};

#[test]
fn only_clean_completion_spares_the_fleet() {
    assert!(!shuts_down_fleet(&TaskOutcome::Completed));
    assert!(shuts_down_fleet(&TaskOutcome::Failed));
    assert!(shuts_down_fleet(&TaskOutcome::Panicked));
}

#[test]
fn exit_code_reflects_any_failure() {
    assert!(exit_cleanly(&vec![]));
    assert!(exit_cleanly(&vec![TaskOutcome::Completed, TaskOutcome::Completed]));
    assert!(!exit_cleanly(&vec![TaskOutcome::Completed, TaskOutcome::Failed]));
    assert!(!exit_cleanly(&vec![TaskOutcome::Panicked]));
}
