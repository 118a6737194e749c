use vstd::prelude::*;
use crate::pipeline::{Pipeline, Stage, has_stage};
use crate::procedure_manager::ProcedureError;

verus! {

/// How the procedures of a stage ended.
#[derive(Clone, Debug)]
pub enum StageOutcome {
    /// Every procedure task ended, with these results (in any order).
    Completed(Vec<Result<(), ProcedureError>>),
    /// A cancellation for the pipeline arrived first.
    Killed,
}

/// What the supervisor does next.
#[derive(Clone, Copy, Debug, PartialEq, Eq, Structural)]
pub enum PipelineAction {
    /// Run the stage named at `position` of the stage order, found at `entry` of
    /// the stage table.
    RunStage { position: usize, entry: usize },
    /// Send a cancellation to every procedure of the current stage, then end.
    BroadcastKill,
    /// End the pipeline; `success` is false where the workspace could not be
    /// prepared or a stage failed.
    End { success: bool },
}

/// Position in the stage table of the entry called `name`.
pub open spec fn stage_entry(entries: Seq<(String, Stage)>, name: Seq<char>) -> int {
    choose|i: int| 0 <= i < entries.len() && entries[i].0@ == name
}

/// The first stage of the order, from `from` on, that the table holds; names the
/// table lacks are skipped. After the last, the pipeline ends successfully.
pub open spec fn first_runnable_from(p: Pipeline, from: int) -> PipelineAction
    decreases p.spec_order().len() - from,
{
    if from < 0 || from >= p.spec_order().len() {
        PipelineAction::End { success: true }
    } else if has_stage(p.stages@, p.spec_order()[from]) {
        PipelineAction::RunStage {
            position: from as usize,
            entry: stage_entry(p.stages@, p.spec_order()[from]) as usize,
        }
    } else {
        first_runnable_from(p, from + 1)
    }
}

/// Every procedure of the stage succeeded.
pub open spec fn all_ok(results: Seq<Result<(), ProcedureError>>) -> bool {
    forall|i: int| 0 <= i < results.len() ==> (#[trigger] results[i]) is Ok
}

pub fn first_runnable(p: &Pipeline, from: usize) -> (r: PipelineAction)
    requires
        p.wf(),
    ensures
        r == first_runnable_from(*p, from as int),
{
    let n = p.order_len();
    let mut k: usize = from;
    while k < n
        invariant
            p.wf(),
            n == p.spec_order().len(),
            from <= k,
            first_runnable_from(*p, from as int) == first_runnable_from(*p, k as int),
        decreases n - k,
    {
        match p.stage_at(k) {
            Some(entry) => {
                proof {
                    let c = stage_entry(p.stages@, p.spec_order()[k as int]);
                    assert(0 <= c < p.stages@.len() && p.stages@[c].0@ == p.spec_order()[k as int]);
                    if c != entry as int {
                        assert(p.stages@[c].0@ != p.stages@[entry as int].0@);
                    }
                }
                return PipelineAction::RunStage { position: k, entry };
            },
            None => {},
        }
        k = k + 1;
    }
    PipelineAction::End { success: true }
}

/// The first step of a pipeline, once its workspace was (or was not) prepared:
/// without a workspace the pipeline ends and runs no stage.
pub fn begin_pipeline(p: &Pipeline, workspace_ready: bool) -> (r: PipelineAction)
    requires
        p.wf(),
    ensures
        !workspace_ready ==> r == (PipelineAction::End { success: false }),
        workspace_ready ==> r == first_runnable_from(*p, 0),
{
    if !workspace_ready {
        PipelineAction::End { success: false }
    } else {
        first_runnable(p, 0)
    }
}

/// Whether every result is a success.
pub fn all_succeeded(results: &Vec<Result<(), ProcedureError>>) -> (r: bool)
    ensures
        r == all_ok(results@),
{
    let mut i: usize = 0;
    while i < results.len()
        invariant
            i <= results@.len(),
            forall|j: int| 0 <= j < i ==> (#[trigger] results@[j]) is Ok,
        decreases results@.len() - i,
    {
        if results[i].is_err() {
            return false;
        }
        i = i + 1;
    }
    true
}

/// The step after the stage at `position` of the order: a cancellation is passed
/// on to the stage's procedures and ends the pipeline; a failed procedure ends it
/// and skips the stages after; otherwise the next stage runs.
pub fn after_stage(p: &Pipeline, position: usize, outcome: &StageOutcome) -> (r: PipelineAction)
    requires
        p.wf(),
        position < p.spec_order().len(),
    ensures
        outcome is Killed ==> r == PipelineAction::BroadcastKill,
        outcome matches StageOutcome::Completed(results) ==> (!all_ok(results@) ==> r == (
        PipelineAction::End { success: false })),
        outcome matches StageOutcome::Completed(results) ==> (all_ok(results@) ==> r
            == first_runnable_from(*p, position + 1)),
{
    match outcome {
        StageOutcome::Killed => PipelineAction::BroadcastKill,
        StageOutcome::Completed(results) => {
            if all_succeeded(results) {
                let order_len = p.order_len();
                let next = if position < order_len {
                    position + 1
                } else {
                    order_len
                };
                first_runnable(p, next)
            } else {
                PipelineAction::End { success: false }
            }
        },
    }
}

/// Whether a stage succeeded depends only on which results its procedures
/// returned, not on the order in which they completed.
pub proof fn lemma_stage_outcome_order_independent(
    s: Seq<Result<(), ProcedureError>>,
    t: Seq<Result<(), ProcedureError>>,
)
    requires
        s.to_multiset() == t.to_multiset(),
    ensures
        all_ok(s) == all_ok(t),
{
    assert forall|x: Result<(), ProcedureError>| s.contains(x) <==> t.contains(x) by {
        vstd::seq_lib::to_multiset_contains(s, x);
        vstd::seq_lib::to_multiset_contains(t, x);
    }
    if all_ok(s) && !all_ok(t) {
        let i = choose|i: int| 0 <= i < t.len() && !(t[i] is Ok);
        assert(t.contains(t[i]));
        let j = choose|j: int| 0 <= j < s.len() && s[j] == t[i];
        assert(s[j] is Ok);
    }
    if all_ok(t) && !all_ok(s) {
        let i = choose|i: int| 0 <= i < s.len() && !(s[i] is Ok);
        assert(s.contains(s[i]));
        let j = choose|j: int| 0 <= j < t.len() && t[j] == s[i];
        assert(t[j] is Ok);
    }
}

} // verus!
