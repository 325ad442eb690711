//! Data model of one control-loop pass: merge requests, pipeline runs,
//! and the candidate tuples the triage engine works on.

use vstd::prelude::*;

verus! {

/// Status of one pipeline run, as the code host reports it.
#[derive(Clone, Copy, PartialEq, Eq, Structural, Debug)]
pub enum PipelineStatus {
    Success,
    Failed,
    Running,
    Pending,
    Canceled,
    ManualInterventionRequired,
    Skipped,
}

/// A user account on the code host.
#[derive(PartialEq, Eq, Debug)]
pub struct SelfUser {
    /// Display name, matched against the bot's configured name.
    pub name: String,
    /// Mention handle, used when notifying the author.
    pub username: String,
    /// Numeric account identifier, used when reassigning.
    pub id: u64,
}

impl Clone for SelfUser {
    fn clone(&self) -> (r: Self)
        ensures
            r == *self,
    {
        SelfUser { name: self.name.clone(), username: self.username.clone(), id: self.id }
    }
}

/// One commit, identified by its hash.
#[derive(PartialEq, Eq, Debug)]
pub struct SelfCommit {
    pub id: String,
}

impl Clone for SelfCommit {
    fn clone(&self) -> (r: Self)
        ensures
            r == *self,
    {
        SelfCommit { id: self.id.clone() }
    }
}

/// One pipeline run attached to a merge request's head commit.
#[derive(Clone, Copy, PartialEq, Eq, Structural, Debug)]
pub struct SelfPipeline {
    pub status: PipelineStatus,
    pub id: u64,
}

/// One open merge request, as observed at the start of a pass.
///
/// A read-only snapshot value: the core never mutates it, it only sends
/// actions about it outward.  The conflict flag and the head commit hash
/// are sourced independently by the host and may be stale relative to
/// each other within one pass.
#[derive(PartialEq, Eq, Debug)]
pub struct SelfMergeRequest {
    /// Unique, stable, orderable identifier.
    pub iid: u64,
    /// Display only.
    pub title: String,
    /// True when the host reports the change cannot be merged due to conflicts.
    pub has_conflicts: bool,
    /// Latest known head commit hash; absent if the host has not computed one.
    pub sha: Option<String>,
    /// Current assignee set; absent when the host reports none.
    pub assignees: Option<Vec<SelfUser>>,
    pub source_branch: String,
    pub target_branch: String,
    pub author: SelfUser,
}

/// The unit the triage engine operates on: one merge request together
/// with its pipeline outcomes and its rebase state, for one pass.
#[derive(PartialEq, Eq, Debug)]
pub struct Candidate {
    pub mr: SelfMergeRequest,
    /// Pipeline runs keyed by the merge request's head commit.
    pub pipelines: Vec<SelfPipeline>,
    /// Whether the source branch already contains the target branch's tip.
    pub rebased: bool,
}

impl Candidate {
    /// A merge request with no head commit has no pipeline outcome:
    /// empty, not an error.
    pub open spec fn wf(self) -> bool {
        self.mr.sha is None ==> self.pipelines@.len() == 0
    }

    /// Builds the candidate for one merge request, dropping any pipeline
    /// list handed in for a request whose head commit is unknown.
    pub fn new(mr: SelfMergeRequest, pipelines: Vec<SelfPipeline>, rebased: bool) -> (c: Candidate)
        ensures
            c.mr == mr,
            c.rebased == rebased,
            mr.sha is Some ==> c.pipelines == pipelines,
            mr.sha is None ==> c.pipelines@ == Seq::<SelfPipeline>::empty(),
            c.wf(),
    {
        if mr.sha.is_some() {
            Candidate { mr, pipelines, rebased }
        } else {
            Candidate { mr, pipelines: Vec::new(), rebased }
        }
    }
}

/// Why a merge request is handed back to its author.
#[derive(Clone, Copy, PartialEq, Eq, Structural, Debug)]
pub enum Reason {
    MergeConflict,
    PipelineFailed,
}

/// The single action the triage engine selects for a candidate, if any.
#[derive(PartialEq, Eq, Debug)]
pub enum Action {
    /// Set the assignee back to the author and post a message naming the
    /// author and the reason — a one-shot handoff to a human.
    ReassignAndNotify { author: SelfUser, reason: Reason },
    /// Rebase the source branch onto the target branch's current tip.
    Rebase,
    /// Merge the request.
    Merge,
}

/// Per-pass policy knobs.  Both the rebase concurrency cap and the two
/// optional rules varied across revisions of this controller, so they are
/// explicit configuration rather than hard-coded behaviour.
#[derive(Clone, Copy, PartialEq, Eq, Structural, Debug)]
pub struct PassConfig {
    /// Whether a failed pipeline hands the request back to its author.
    pub reassign_on_pipeline_failure: bool,
    /// How many rebase actions one pass may dispatch.
    pub rebase_cap: usize,
    /// Whether in-flight pipelines of not-rebased candidates are canceled.
    pub cancel_stale_pipelines: bool,
}

} // verus!
