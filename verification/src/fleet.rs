use vstd::prelude::*;

verus! {

/// How one fleet task — a source's supervisor or the registry service —
/// ended.
#[derive(Clone, Copy, PartialEq, Eq, Structural, Debug)]
pub enum TaskOutcome {
    /// The task finished and returned without error.
    Completed,
    /// The task returned an error: for a supervisor, a fatal failure; for
    /// the registry service, its loop failing.
    Failed,
    /// The task ended without returning: a panic or an abort.
    Panicked,
}

/// Whether one ended task makes the fleet shut the whole process down.
/// Every ending but a clean completion does; a supervisor bowing out
/// cleanly is no reason to stop its siblings.
pub fn shuts_down_fleet(o: &TaskOutcome) -> (r: bool)
    ensures
        r == !(*o is Completed),
{
    match o {
        TaskOutcome::Completed => false,
        _ => true,
    }
}

/// Every task completed cleanly.
pub open spec fn spec_all_completed(s: Seq<TaskOutcome>) -> bool {
    forall|i: int| 0 <= i < s.len() ==> (#[trigger] s[i]) is Completed
}

/// Whether the process may exit with a clean code: true exactly when every
/// task completed without error or panic.
pub fn exit_cleanly(outcomes: &Vec<TaskOutcome>) -> (r: bool)
    ensures
        r == spec_all_completed(outcomes@),
{
    let mut i: usize = 0;
    while i < outcomes.len()
        invariant
            i <= outcomes@.len(),
            forall|j: int| 0 <= j < i ==> (#[trigger] outcomes@[j]) is Completed,
        decreases outcomes@.len() - i,
    {
        let failed = shuts_down_fleet(&outcomes[i]);
        if failed {
            return false;
        }
        i += 1;
    }
    true
}

} // verus!
