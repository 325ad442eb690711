//! The triage engine: a pure classification of one candidate into at most
//! one action, evaluated independently per candidate.
//!
//! The rules, in precedence order (first match wins):
//! 1. conflict                      -> hand back to the author ("merge conflict");
//! 2. some pipeline failed          -> hand back to the author ("pipeline failed"),
//!    only when the policy flag asks for it;
//! 3. every pipeline outcome is terminal-and-clean (success, canceled, or
//!    manual-intervention-required), and there is at least one -> merge;
//! 4. not yet rebased               -> rebase;
//! 5. otherwise                     -> no action.

use vstd::prelude::*;

use crate::model::Action;
use crate::model::Candidate;
use crate::model::PipelineStatus;
use crate::model::Reason;
use crate::model::SelfPipeline;

verus! {

/// A pipeline outcome that does not stand in the way of merging.
pub open spec fn mergeable_status(s: PipelineStatus) -> bool {
    ||| s == PipelineStatus::Success
    ||| s == PipelineStatus::Canceled
    ||| s == PipelineStatus::ManualInterventionRequired
}

/// A pipeline run that is still in flight.
pub open spec fn in_flight_status(s: PipelineStatus) -> bool {
    ||| s == PipelineStatus::Running
    ||| s == PipelineStatus::Pending
}

/// Some outcome in the list is a failure.
pub open spec fn has_failed_outcome(ps: Seq<SelfPipeline>) -> bool {
    exists|i: int| 0 <= i < ps.len() && ps[i].status == PipelineStatus::Failed
}

/// Every outcome in the list is terminal and clean.
pub open spec fn all_outcomes_mergeable(ps: Seq<SelfPipeline>) -> bool {
    forall|i: int| 0 <= i < ps.len() ==> mergeable_status(ps[i].status)
}

/// The triage decision for one candidate, rule by rule.
pub open spec fn triage_spec(c: Candidate, reassign_on_pipeline_failure: bool) -> Option<Action> {
    if c.mr.has_conflicts {
        Some(Action::ReassignAndNotify { author: c.mr.author, reason: Reason::MergeConflict })
    } else if reassign_on_pipeline_failure && c.pipelines@.len() > 0 && has_failed_outcome(
        c.pipelines@,
    ) {
        Some(Action::ReassignAndNotify { author: c.mr.author, reason: Reason::PipelineFailed })
    } else if c.pipelines@.len() > 0 && all_outcomes_mergeable(c.pipelines@) {
        Some(Action::Merge)
    } else if !c.rebased {
        Some(Action::Rebase)
    } else {
        None
    }
}

/// Whether this outcome lets a merge go ahead.
pub fn is_mergeable_status(s: PipelineStatus) -> (r: bool)
    ensures
        r == mergeable_status(s),
{
    match s {
        PipelineStatus::Success => true,
        PipelineStatus::Canceled => true,
        PipelineStatus::ManualInterventionRequired => true,
        _ => false,
    }
}

/// Whether this pipeline run is still in flight.
pub fn is_in_flight_status(s: PipelineStatus) -> (r: bool)
    ensures
        r == in_flight_status(s),
{
    match s {
        PipelineStatus::Running => true,
        PipelineStatus::Pending => true,
        _ => false,
    }
}

/// Whether some run in the list failed.
pub fn has_failed(ps: &Vec<SelfPipeline>) -> (r: bool)
    ensures
        r == has_failed_outcome(ps@),
{
    let mut i: usize = 0;
    while i < ps.len()
        invariant
            0 <= i <= ps@.len(),
            forall|k: int| 0 <= k < i ==> ps@[k].status != PipelineStatus::Failed,
        decreases ps@.len() - i,
    {
        if ps[i].status == PipelineStatus::Failed {
            return true;
        }
        i += 1;
    }
    false
}

/// Whether every run in the list is terminal and clean.
pub fn all_mergeable(ps: &Vec<SelfPipeline>) -> (r: bool)
    ensures
        r == all_outcomes_mergeable(ps@),
{
    let mut i: usize = 0;
    while i < ps.len()
        invariant
            0 <= i <= ps@.len(),
            forall|k: int| 0 <= k < i ==> mergeable_status(ps@[k].status),
        decreases ps@.len() - i,
    {
        if !is_mergeable_status(ps[i].status) {
            return false;
        }
        i += 1;
    }
    true
}

/// Classifies one candidate; returns the selected action, or `None` when
/// nothing should be done this pass (pipeline still running, or already
/// rebased with no terminal result yet).
pub fn triage(c: &Candidate, reassign_on_pipeline_failure: bool) -> (r: Option<Action>)
    ensures
        r == triage_spec(*c, reassign_on_pipeline_failure),
{
    if c.mr.has_conflicts {
        Some(
            Action::ReassignAndNotify {
                author: c.mr.author.clone(),
                reason: Reason::MergeConflict,
            },
        )
    } else if reassign_on_pipeline_failure && c.pipelines.len() > 0 && has_failed(&c.pipelines) {
        Some(
            Action::ReassignAndNotify {
                author: c.mr.author.clone(),
                reason: Reason::PipelineFailed,
            },
        )
    } else if c.pipelines.len() > 0 && all_mergeable(&c.pipelines) {
        Some(Action::Merge)
    } else if !c.rebased {
        Some(Action::Rebase)
    } else {
        None
    }
}

/// A candidate with the conflict flag set is always handed back to its
/// author with reason "merge conflict", whatever its pipeline or rebase
/// state: conflicts pre-empt everything else.
pub proof fn lemma_conflict_preempts(c: Candidate, reassign_on_pipeline_failure: bool)
    requires
        c.mr.has_conflicts,
    ensures
        triage_spec(c, reassign_on_pipeline_failure) == Some(
            Action::ReassignAndNotify { author: c.mr.author, reason: Reason::MergeConflict },
        ),
{
}

/// A candidate with no pipeline outcome is never merged.
pub proof fn lemma_no_pipeline_no_merge(c: Candidate, reassign_on_pipeline_failure: bool)
    requires
        c.pipelines@.len() == 0,
    ensures
        triage_spec(c, reassign_on_pipeline_failure) != Some(Action::Merge),
{
}

/// A candidate without conflicts whose pipeline outcomes are all
/// terminal and clean — and there is at least one — is merged.  (With no
/// outcome at all it is not: see `lemma_no_pipeline_no_merge`.)
pub proof fn lemma_clean_pipelines_merge(c: Candidate, reassign_on_pipeline_failure: bool)
    requires
        !c.mr.has_conflicts,
        c.pipelines@.len() > 0,
        all_outcomes_mergeable(c.pipelines@),
    ensures
        triage_spec(c, reassign_on_pipeline_failure) == Some(Action::Merge),
{
    if has_failed_outcome(c.pipelines@) {
        let i = choose|i: int|
            0 <= i < c.pipelines@.len() && c.pipelines@[i].status == PipelineStatus::Failed;
        assert(mergeable_status(c.pipelines@[i].status));
        assert(false);
    }
}

/// A candidate without conflicts that is not yet rebased, and that no
/// higher-precedence rule claims, is rebased.
pub proof fn lemma_needs_rebase(c: Candidate, reassign_on_pipeline_failure: bool)
    requires
        !c.mr.has_conflicts,
        !c.rebased,
        !(reassign_on_pipeline_failure && c.pipelines@.len() > 0 && has_failed_outcome(
            c.pipelines@,
        )),
        !(c.pipelines@.len() > 0 && all_outcomes_mergeable(c.pipelines@)),
    ensures
        triage_spec(c, reassign_on_pipeline_failure) == Some(Action::Rebase),
{
}

/// Triage is idempotent: it is a function of the candidate and the
/// policy flag alone, so any two results that meet `triage`'s contract
/// on the same candidate coincide.
pub proof fn lemma_triage_idempotent(
    c: Candidate,
    reassign_on_pipeline_failure: bool,
    r1: Option<Action>,
    r2: Option<Action>,
)
    requires
        r1 == triage_spec(c, reassign_on_pipeline_failure),
        r2 == triage_spec(c, reassign_on_pipeline_failure),
    ensures
        r1 == r2,
{
}

} // verus!
