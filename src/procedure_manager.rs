use vstd::prelude::*;
use crate::procedure::{AutoRestartPolicy, Procedure};

verus! {

/// Why a procedure ended without running all its commands.
#[derive(Clone, Copy, Debug, PartialEq, Eq, Structural)]
pub enum ProcedureError {
    /// A child could not be started for a command.
    SpawnFailed,
    /// A command failed and its restart policy did not restart it; the child was killed.
    ChildKillFail,
    /// A child ended unsuccessfully with no exit code.
    ChildEndMissingCloseCode,
    /// A cancellation was received.
    Cancelled,
}

/// What became of the child started for the current command.
#[derive(Clone, Copy, Debug, PartialEq, Eq, Structural)]
pub enum ChildEvent {
    /// The child exited on its own, with this exit code (`None` where it gave
    /// none). An exit succeeds exactly when its code is 0.
    Exited { code: Option<i32> },
    /// A cancellation arrived before the child exited.
    Cancelled,
    /// The child could not be started.
    SpawnFailed,
}

/// What the runner does next.
#[derive(Clone, Copy, Debug, PartialEq, Eq, Structural)]
pub enum ProcedureAction {
    /// Start a child for the command at this index.
    Spawn(usize),
    /// Kill the current child (best effort) and end with this error.
    KillAndFinish(ProcedureError),
    /// End successfully.
    Succeed,
    /// End with this error.
    Fail(ProcedureError),
}

pub open spec fn spec_start(procedure: Procedure) -> ProcedureAction {
    if procedure.commands@.len() == 0 {
        ProcedureAction::Succeed
    } else {
        ProcedureAction::Spawn(0)
    }
}

/// The first step of a procedure: a procedure without commands succeeds at once
/// and starts no child.
pub fn start_procedure(procedure: &Procedure) -> (r: ProcedureAction)
    ensures
        r == spec_start(*procedure),
{
    if procedure.commands.len() == 0 {
        ProcedureAction::Succeed
    } else {
        ProcedureAction::Spawn(0)
    }
}

pub open spec fn spec_next(policy: AutoRestartPolicy, len: nat, index: nat, event: ChildEvent) -> ProcedureAction {
    match event {
        ChildEvent::Exited { code: Some(c) } => if c == 0 {
            if index + 1 == len {
                ProcedureAction::Succeed
            } else {
                ProcedureAction::Spawn((index + 1) as usize)
            }
        } else if policy.spec_should_restart(c) {
            ProcedureAction::Spawn(index as usize)
        } else {
            ProcedureAction::KillAndFinish(ProcedureError::ChildKillFail)
        },
        ChildEvent::Exited { code: None } => ProcedureAction::Fail(ProcedureError::ChildEndMissingCloseCode),
        ChildEvent::Cancelled => ProcedureAction::KillAndFinish(ProcedureError::Cancelled),
        ChildEvent::SpawnFailed => ProcedureAction::Fail(ProcedureError::SpawnFailed),
    }
}

/// The step after the child of command `index` reported `event`: a success moves
/// to the next command (or ends the procedure after the last); a failure with a
/// code restarts the same command where the policy says so, else kills and ends;
/// a cancellation kills and ends.
pub fn next_procedure_action(procedure: &Procedure, index: usize, event: ChildEvent) -> (r:
    ProcedureAction)
    requires
        index < procedure.commands@.len(),
    ensures
        r == spec_next(procedure.auto_restart, procedure.commands@.len(), index as nat, event),
{
    match event {
        ChildEvent::Exited { code: Some(c) } => {
            if c == 0 {
                if index == procedure.commands.len() - 1 {
                    ProcedureAction::Succeed
                } else {
                    ProcedureAction::Spawn(index + 1)
                }
            } else if procedure.auto_restart.should_restart(c) {
                ProcedureAction::Spawn(index)
            } else {
                ProcedureAction::KillAndFinish(ProcedureError::ChildKillFail)
            }
        },
        ChildEvent::Exited { code: None } => ProcedureAction::Fail(ProcedureError::ChildEndMissingCloseCode),
        ChildEvent::Cancelled => ProcedureAction::KillAndFinish(ProcedureError::Cancelled),
        ChildEvent::SpawnFailed => ProcedureAction::Fail(ProcedureError::SpawnFailed),
    }
}

/// How a finished child is reported: its exit code, 1 standing for a missing
/// code (a child ended by a signal). `status` is `None` where waiting for the
/// child failed, which counts as an exit with code 1.
pub fn child_outcome(status: Option<Option<i32>>) -> (r: ChildEvent)
    ensures
        status matches Some(Some(code)) ==> r == (ChildEvent::Exited { code: Some(code) }),
        !(status matches Some(Some(_))) ==> r == (ChildEvent::Exited { code: Some(1i32) }),
{
    match status {
        Some(Some(code)) => ChildEvent::Exited { code: Some(code) },
        _ => ChildEvent::Exited { code: Some(1) },
    }
}

/// A procedure without commands finishes successfully at its first step,
/// without starting any child.
pub proof fn lemma_empty_procedure_spawns_nothing(procedure: Procedure)
    requires
        procedure.commands@.len() == 0,
    ensures
        spec_start(procedure) == ProcedureAction::Succeed,
        !(spec_start(procedure) is Spawn),
{
}

/// Under `Always`, every exit with a non-zero code starts the same command
/// again, and a cancellation ends the procedure whatever the policy.
pub proof fn lemma_always_restarts_until_cancelled(
    policy: AutoRestartPolicy,
    len: nat,
    index: nat,
    code: i32,
)
    requires
        policy is Always,
        index < len,
        index <= usize::MAX,
        code != 0,
    ensures
        spec_next(policy, len, index, ChildEvent::Exited { code: Some(code) })
            == ProcedureAction::Spawn(index as usize),
        spec_next(policy, len, index, ChildEvent::Cancelled) == ProcedureAction::KillAndFinish(
            ProcedureError::Cancelled,
        ),
{
}

/// Listing exit code 0 as the only restart code restarts nothing: on every event
/// the procedure takes the same step as under `Never`, since an exit with code 0
/// is a success and never consults the policy.
pub proof fn lemma_inclusion_of_zero_is_vacuous(
    codes: Vec<i32>,
    len: nat,
    index: nat,
    event: ChildEvent,
)
    requires
        codes@ == seq![0i32],
    ensures
        spec_next(AutoRestartPolicy::InclusionCodes(codes), len, index, event) == spec_next(
            AutoRestartPolicy::Never,
            len,
            index,
            event,
        ),
{
    if let ChildEvent::Exited { code: Some(c) } = event {
        if c != 0 {
            assert(!codes@.contains(c)) by {
                if codes@.contains(c) {
                    let k = choose|k: int| 0 <= k < codes@.len() && codes@[k] == c;
                    assert(codes@[0] == 0i32);
                }
            }
        }
    }
}

} // verus!
