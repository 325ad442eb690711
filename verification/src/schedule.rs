//! The action scheduler: orders and bounds the actions the triage engine
//! selected for one pass.
//!
//! Reassignments and merges are never capped — they are terminal, safe
//! actions.  Rebases are taken in candidate order and cut off at the
//! configured cap.  Before new rebases go out, in-flight pipelines of
//! not-rebased candidates are scheduled for cancellation: a pipeline
//! running against a stale base is wasted compute and must not gate a
//! later merge decision.

use vstd::prelude::*;
use vstd::string::StringExecFns;

use crate::model::Action;
use crate::model::Candidate;
use crate::model::PassConfig;
use crate::model::Reason;
use crate::model::SelfPipeline;
use crate::model::SelfUser;
use crate::snapshot::sorted_by_iid;
use crate::triage::in_flight_status;
use crate::triage::is_in_flight_status;
use crate::triage::triage;
use crate::triage::triage_spec;

verus! {

/// One hand-back order: reassign the merge request to its author and
/// post a notification naming the author and the reason.
#[derive(PartialEq, Eq, Debug)]
pub struct Reassignment {
    pub iid: u64,
    pub author: SelfUser,
    pub reason: Reason,
}

/// Everything one pass dispatches, in dispatch order: reassignments
/// first, then pipeline cancellations for stale candidates, then the
/// capped rebase batch, then merges.  Merges come last so that no rebase
/// races a merge of another request in the same pass.
#[derive(PartialEq, Eq, Debug)]
pub struct Plan {
    /// Hand-back orders, one per candidate triaged to reassign-and-notify.
    pub reassignments: Vec<Reassignment>,
    /// Pipeline identifiers to cancel.
    pub cancellations: Vec<u64>,
    /// Merge-request identifiers to rebase, at most the configured cap.
    pub rebases: Vec<u64>,
    /// Merge-request identifiers to merge.
    pub merges: Vec<u64>,
}

/// The triage engine selects a rebase for this candidate.
pub open spec fn needs_rebase(c: Candidate, reassign_on_pipeline_failure: bool) -> bool {
    triage_spec(c, reassign_on_pipeline_failure) == Some(Action::Rebase)
}

/// The hand-back orders for these candidates, in candidate order.
pub open spec fn reassignments_spec(cs: Seq<Candidate>, reassign_on_pipeline_failure: bool) -> Seq<
    Reassignment,
>
    decreases cs.len(),
{
    if cs.len() == 0 {
        Seq::empty()
    } else {
        let rest = reassignments_spec(cs.drop_first(), reassign_on_pipeline_failure);
        match triage_spec(cs.first(), reassign_on_pipeline_failure) {
            Option::Some(
                Action::ReassignAndNotify { author, reason },
            ) => seq![Reassignment { iid: cs.first().mr.iid, author, reason }] + rest,
            _ => rest,
        }
    }
}

/// The identifiers of the in-flight runs in this pipeline list, in order.
pub open spec fn inflight_ids(ps: Seq<SelfPipeline>) -> Seq<u64>
    decreases ps.len(),
{
    if ps.len() == 0 {
        Seq::empty()
    } else if in_flight_status(ps.first().status) {
        seq![ps.first().id] + inflight_ids(ps.drop_first())
    } else {
        inflight_ids(ps.drop_first())
    }
}

/// The pipeline identifiers one pass cancels: every in-flight run of
/// every candidate that is not yet rebased, in candidate order.
pub open spec fn cancellations_spec(cs: Seq<Candidate>) -> Seq<u64>
    decreases cs.len(),
{
    if cs.len() == 0 {
        Seq::empty()
    } else {
        (if !cs.first().rebased {
            inflight_ids(cs.first().pipelines@)
        } else {
            Seq::<u64>::empty()
        }) + cancellations_spec(cs.drop_first())
    }
}

/// The identifiers of every candidate needing rebase, in candidate
/// order, before the cap is applied.
pub open spec fn rebase_queue_spec(cs: Seq<Candidate>, reassign_on_pipeline_failure: bool) -> Seq<
    u64,
>
    decreases cs.len(),
{
    if cs.len() == 0 {
        Seq::empty()
    } else {
        let rest = rebase_queue_spec(cs.drop_first(), reassign_on_pipeline_failure);
        if needs_rebase(cs.first(), reassign_on_pipeline_failure) {
            seq![cs.first().mr.iid] + rest
        } else {
            rest
        }
    }
}

/// The rebase queue cut off at the cap.
pub open spec fn capped_rebases_spec(
    cs: Seq<Candidate>,
    reassign_on_pipeline_failure: bool,
    cap: nat,
) -> Seq<u64> {
    let q = rebase_queue_spec(cs, reassign_on_pipeline_failure);
    if cap <= q.len() {
        q.take(cap as int)
    } else {
        q
    }
}

/// The identifiers of every candidate selected for merge, in candidate
/// order.  Merges are never capped.
pub open spec fn merges_spec(cs: Seq<Candidate>, reassign_on_pipeline_failure: bool) -> Seq<u64>
    decreases cs.len(),
{
    if cs.len() == 0 {
        Seq::empty()
    } else {
        let rest = merges_spec(cs.drop_first(), reassign_on_pipeline_failure);
        if triage_spec(cs.first(), reassign_on_pipeline_failure) == Some(Action::Merge) {
            seq![cs.first().mr.iid] + rest
        } else {
            rest
        }
    }
}

/// Appends the identifiers of the in-flight runs to `out`.
fn push_inflight_ids(ps: &Vec<SelfPipeline>, out: &mut Vec<u64>)
    ensures
        final(out)@ == old(out)@ + inflight_ids(ps@),
{
    proof {
        assert(ps@.skip(0) =~= ps@);
    }
    let mut j: usize = 0;
    while j < ps.len()
        invariant
            0 <= j <= ps@.len(),
            out@ + inflight_ids(ps@.skip(j as int)) == old(out)@ + inflight_ids(ps@),
        decreases ps@.len() - j,
    {
        let ghost tail = ps@.skip(j as int);
        proof {
            assert(tail.first() == ps@[j as int]);
            assert(tail.drop_first() =~= ps@.skip(j as int + 1));
        }
        if is_in_flight_status(ps[j].status) {
            let ghost out_before = out@;
            out.push(ps[j].id);
            proof {
                assert(out@ + inflight_ids(ps@.skip(j as int + 1)) =~= out_before + inflight_ids(
                    tail,
                ));
            }
        }
        j += 1;
    }
    proof {
        assert(out@ + inflight_ids(ps@.skip(ps@.len() as int)) =~= out@);
    }
}

/// Decides everything one pass dispatches: which candidates are handed
/// back, which stale pipelines are canceled, which requests are rebased
/// (in candidate order, at most the cap) and which are merged.  Pure: the
/// caller performs the dispatches, in the `Plan`'s field order.
pub fn plan_pass(candidates: &Vec<Candidate>, cfg: &PassConfig) -> (p: Plan)
    ensures
        p.reassignments@ == reassignments_spec(candidates@, cfg.reassign_on_pipeline_failure),
        p.cancellations@ == (if cfg.cancel_stale_pipelines {
            cancellations_spec(candidates@)
        } else {
            Seq::<u64>::empty()
        }),
        p.rebases@ == capped_rebases_spec(
            candidates@,
            cfg.reassign_on_pipeline_failure,
            cfg.rebase_cap as nat,
        ),
        p.rebases@.len() <= cfg.rebase_cap,
        p.merges@ == merges_spec(candidates@, cfg.reassign_on_pipeline_failure),
{
    let flag = cfg.reassign_on_pipeline_failure;
    let mut reassignments: Vec<Reassignment> = Vec::new();
    let mut cancellations: Vec<u64> = Vec::new();
    let mut rebase_queue: Vec<u64> = Vec::new();
    let mut merges: Vec<u64> = Vec::new();
    proof {
        assert(candidates@.skip(0) =~= candidates@);
    }
    let mut i: usize = 0;
    while i < candidates.len()
        invariant
            0 <= i <= candidates@.len(),
            flag == cfg.reassign_on_pipeline_failure,
            reassignments@ + reassignments_spec(candidates@.skip(i as int), flag)
                == reassignments_spec(candidates@, flag),
            cancellations@ + cancellations_spec(candidates@.skip(i as int)) == cancellations_spec(
                candidates@,
            ),
            rebase_queue@ + rebase_queue_spec(candidates@.skip(i as int), flag)
                == rebase_queue_spec(candidates@, flag),
            merges@ + merges_spec(candidates@.skip(i as int), flag) == merges_spec(
                candidates@,
                flag,
            ),
        decreases candidates@.len() - i,
    {
        let ghost tail = candidates@.skip(i as int);
        proof {
            assert(tail.first() == candidates@[i as int]);
            assert(tail.drop_first() =~= candidates@.skip(i as int + 1));
        }
        let c = &candidates[i];
        let ghost ra_before = reassignments@;
        let ghost ca_before = cancellations@;
        let ghost rq_before = rebase_queue@;
        let ghost me_before = merges@;
        match triage(c, flag) {
            Option::Some(Action::ReassignAndNotify { author, reason }) => {
                reassignments.push(Reassignment { iid: c.mr.iid, author, reason });
                proof {
                    assert(reassignments@ + reassignments_spec(tail.drop_first(), flag)
                        =~= ra_before + reassignments_spec(tail, flag));
                }
            },
            Option::Some(Action::Rebase) => {
                rebase_queue.push(c.mr.iid);
                proof {
                    assert(rebase_queue@ + rebase_queue_spec(tail.drop_first(), flag) =~= rq_before
                        + rebase_queue_spec(tail, flag));
                }
            },
            Option::Some(Action::Merge) => {
                merges.push(c.mr.iid);
                proof {
                    assert(merges@ + merges_spec(tail.drop_first(), flag) =~= me_before
                        + merges_spec(tail, flag));
                }
            },
            Option::None => {},
        }
        if !c.rebased {
            push_inflight_ids(&c.pipelines, &mut cancellations);
            proof {
                assert(cancellations@ + cancellations_spec(tail.drop_first()) =~= ca_before
                    + cancellations_spec(tail));
            }
        }
        i += 1;
    }
    proof {
        let ghost all = candidates@;
        assert(all.skip(all.len() as int) =~= Seq::<Candidate>::empty());
        assert(reassignments@ + reassignments_spec(all.skip(all.len() as int), flag)
            =~= reassignments@);
        assert(cancellations@ + cancellations_spec(all.skip(all.len() as int)) =~= cancellations@);
        assert(rebase_queue@ + rebase_queue_spec(all.skip(all.len() as int), flag)
            =~= rebase_queue@);
        assert(merges@ + merges_spec(all.skip(all.len() as int), flag) =~= merges@);
    }
    let mut rebases = rebase_queue;
    rebases.truncate(cfg.rebase_cap);
    if !cfg.cancel_stale_pipelines {
        cancellations = Vec::new();
    }
    Plan { reassignments, cancellations, rebases, merges }
}

proof fn lemma_rebase_queue_first(cs: Seq<Candidate>, flag: bool)
    requires
        exists|j: int| 0 <= j < cs.len() && needs_rebase(cs[j], flag),
    ensures
        rebase_queue_spec(cs, flag).len() > 0,
        exists|k: int|
            0 <= k < cs.len() && needs_rebase(cs[k], flag) && rebase_queue_spec(cs, flag)[0]
                == cs[k].mr.iid && (forall|j: int| 0 <= j < k ==> !needs_rebase(cs[j], flag)),
    decreases cs.len(),
{
    let j0 = choose|j: int| 0 <= j < cs.len() && needs_rebase(cs[j], flag);
    if needs_rebase(cs.first(), flag) {
        assert(cs.first() == cs[0]);
        assert(rebase_queue_spec(cs, flag)[0] == cs[0].mr.iid);
        assert(0 <= 0 < cs.len() && needs_rebase(cs[0], flag) && rebase_queue_spec(cs, flag)[0]
            == cs[0].mr.iid && (forall|j: int| 0 <= j < 0 ==> !needs_rebase(cs[j], flag)));
    } else {
        assert(cs.first() == cs[0]);
        assert(j0 >= 1);
        let rest = cs.drop_first();
        assert(rest[j0 - 1] == cs[j0]);
        lemma_rebase_queue_first(rest, flag);
        let k = choose|k: int|
            0 <= k < rest.len() && needs_rebase(rest[k], flag) && rebase_queue_spec(rest, flag)[0]
                == rest[k].mr.iid && (forall|j: int| 0 <= j < k ==> !needs_rebase(rest[j], flag));
        assert(rebase_queue_spec(cs, flag) == rebase_queue_spec(rest, flag));
        assert(rest[k] == cs[k + 1]);
        assert forall|j: int| 0 <= j < k + 1 implies !needs_rebase(cs[j], flag) by {
            if j > 0 {
                assert(cs[j] == rest[j - 1]);
            }
        }
        assert(0 <= k + 1 < cs.len() && needs_rebase(cs[k + 1], flag) && rebase_queue_spec(
            cs,
            flag,
        )[0] == cs[k + 1].mr.iid && (forall|j: int| 0 <= j < k + 1 ==> !needs_rebase(cs[j], flag)));
    }
}

/// `x` is the identifier of some candidate the triage engine selected
/// for rebase.
pub open spec fn names_a_needing_candidate(cs: Seq<Candidate>, flag: bool, x: u64) -> bool {
    exists|k: int| 0 <= k < cs.len() && needs_rebase(cs[k], flag) && cs[k].mr.iid == x
}

/// Every entry of the uncapped rebase queue is the identifier of a
/// candidate the triage engine selected for rebase.
pub proof fn lemma_rebase_queue_elements(cs: Seq<Candidate>, flag: bool)
    ensures
        forall|t: int|
            0 <= t < rebase_queue_spec(cs, flag).len() ==> names_a_needing_candidate(
                cs,
                flag,
                #[trigger] rebase_queue_spec(cs, flag)[t],
            ),
    decreases cs.len(),
{
    if cs.len() == 0 {
        assert(rebase_queue_spec(cs, flag).len() == 0);
    } else {
        let rest = cs.drop_first();
        lemma_rebase_queue_elements(rest, flag);
        assert forall|t: int|
            0 <= t < rebase_queue_spec(cs, flag).len() implies names_a_needing_candidate(
            cs,
            flag,
            #[trigger] rebase_queue_spec(cs, flag)[t],
        ) by {
            if needs_rebase(cs.first(), flag) && t == 0 {
                assert(cs.first() == cs[0]);
                assert(rebase_queue_spec(cs, flag)[0] == cs[0].mr.iid);
                assert(0 <= 0 < cs.len() && needs_rebase(cs[0], flag) && cs[0].mr.iid
                    == rebase_queue_spec(cs, flag)[t]);
            } else {
                let tr: int = if needs_rebase(cs.first(), flag) {
                    t - 1
                } else {
                    t
                };
                assert(0 <= tr < rebase_queue_spec(rest, flag).len());
                assert(rebase_queue_spec(cs, flag)[t] == rebase_queue_spec(rest, flag)[tr]);
                assert(names_a_needing_candidate(rest, flag, rebase_queue_spec(rest, flag)[tr]));
                let k = choose|k: int|
                    0 <= k < rest.len() && needs_rebase(rest[k], flag) && rest[k].mr.iid
                        == rebase_queue_spec(rest, flag)[tr];
                assert(rest[k] == cs[k + 1]);
                assert(0 <= k + 1 < cs.len() && needs_rebase(cs[k + 1], flag) && cs[k + 1].mr.iid
                    == rebase_queue_spec(cs, flag)[t]);
            }
        }
    }
}

/// `x` is the identifier of some candidate the triage engine selected
/// for merge.
pub open spec fn names_a_merging_candidate(cs: Seq<Candidate>, flag: bool, x: u64) -> bool {
    exists|k: int|
        0 <= k < cs.len() && triage_spec(cs[k], flag) == Some(Action::Merge) && cs[k].mr.iid == x
}

/// Every entry of the merge batch is the identifier of a candidate the
/// triage engine selected for merge.
pub proof fn lemma_merges_elements(cs: Seq<Candidate>, flag: bool)
    ensures
        forall|t: int|
            0 <= t < merges_spec(cs, flag).len() ==> names_a_merging_candidate(
                cs,
                flag,
                #[trigger] merges_spec(cs, flag)[t],
            ),
    decreases cs.len(),
{
    if cs.len() == 0 {
        assert(merges_spec(cs, flag).len() == 0);
    } else {
        let rest = cs.drop_first();
        lemma_merges_elements(rest, flag);
        assert forall|t: int|
            0 <= t < merges_spec(cs, flag).len() implies names_a_merging_candidate(
            cs,
            flag,
            #[trigger] merges_spec(cs, flag)[t],
        ) by {
            let picked = triage_spec(cs.first(), flag) == Some(Action::Merge);
            if picked && t == 0 {
                assert(cs.first() == cs[0]);
                assert(merges_spec(cs, flag)[0] == cs[0].mr.iid);
                assert(0 <= 0 < cs.len() && triage_spec(cs[0], flag) == Some(Action::Merge)
                    && cs[0].mr.iid == merges_spec(cs, flag)[t]);
            } else {
                let tr: int = if picked {
                    t - 1
                } else {
                    t
                };
                assert(0 <= tr < merges_spec(rest, flag).len());
                assert(merges_spec(cs, flag)[t] == merges_spec(rest, flag)[tr]);
                assert(names_a_merging_candidate(rest, flag, merges_spec(rest, flag)[tr]));
                let k = choose|k: int|
                    0 <= k < rest.len() && triage_spec(rest[k], flag) == Some(Action::Merge)
                        && rest[k].mr.iid == merges_spec(rest, flag)[tr];
                assert(rest[k] == cs[k + 1]);
                assert(0 <= k + 1 < cs.len() && triage_spec(cs[k + 1], flag) == Some(Action::Merge)
                    && cs[k + 1].mr.iid == merges_spec(cs, flag)[t]);
            }
        }
    }
}

/// Conflicts pre-empt everything: when identifiers are unique, a
/// candidate whose conflict flag is set is neither rebased nor merged by
/// the pass, whatever the cap and the policy flag.
pub proof fn lemma_conflict_never_rebased_or_merged(
    cs: Seq<Candidate>,
    flag: bool,
    cap: nat,
    j: int,
)
    requires
        0 <= j < cs.len(),
        cs[j].mr.has_conflicts,
        forall|a: int, b: int| 0 <= a < b < cs.len() ==> cs[a].mr.iid != cs[b].mr.iid,
    ensures
        !capped_rebases_spec(cs, flag, cap).contains(cs[j].mr.iid),
        !merges_spec(cs, flag).contains(cs[j].mr.iid),
{
    if capped_rebases_spec(cs, flag, cap).contains(cs[j].mr.iid) {
        let t = choose|t: int|
            0 <= t < capped_rebases_spec(cs, flag, cap).len() && capped_rebases_spec(cs, flag, cap)[t]
                == cs[j].mr.iid;
        assert(capped_rebases_spec(cs, flag, cap)[t] == rebase_queue_spec(cs, flag)[t]);
        lemma_rebase_queue_elements(cs, flag);
        assert(names_a_needing_candidate(cs, flag, cs[j].mr.iid));
        let k = choose|k: int|
            0 <= k < cs.len() && needs_rebase(cs[k], flag) && cs[k].mr.iid == cs[j].mr.iid;
        assert(!needs_rebase(cs[j], flag));
        if k < j {
            assert(cs[k].mr.iid != cs[j].mr.iid);
        } else {
            assert(j < k);
            assert(cs[j].mr.iid != cs[k].mr.iid);
        }
        assert(false);
    }
    if merges_spec(cs, flag).contains(cs[j].mr.iid) {
        let t = choose|t: int|
            0 <= t < merges_spec(cs, flag).len() && merges_spec(cs, flag)[t] == cs[j].mr.iid;
        lemma_merges_elements(cs, flag);
        assert(names_a_merging_candidate(cs, flag, cs[j].mr.iid));
        let k = choose|k: int|
            0 <= k < cs.len() && triage_spec(cs[k], flag) == Some(Action::Merge) && cs[k].mr.iid
                == cs[j].mr.iid;
        assert(triage_spec(cs[j], flag) != Some(Action::Merge));
        if k < j {
            assert(cs[k].mr.iid != cs[j].mr.iid);
        } else {
            assert(j < k);
            assert(cs[j].mr.iid != cs[k].mr.iid);
        }
        assert(false);
    }
}

/// The ordering-and-cap law: over candidates in ascending identifier
/// order, with a rebase cap of one and at least one candidate needing
/// rebase, the scheduler dispatches exactly one rebase, and it names the
/// candidate with the smallest identifier among those needing rebase.
pub proof fn lemma_cap_one_rebases_smallest(cs: Seq<Candidate>, flag: bool)
    requires
        sorted_by_iid(cs),
        exists|j: int| 0 <= j < cs.len() && needs_rebase(cs[j], flag),
    ensures
        capped_rebases_spec(cs, flag, 1).len() == 1,
        exists|k: int|
            0 <= k < cs.len() && needs_rebase(cs[k], flag) && capped_rebases_spec(cs, flag, 1)[0]
                == cs[k].mr.iid,
        forall|j: int|
            0 <= j < cs.len() && needs_rebase(cs[j], flag) ==> capped_rebases_spec(cs, flag, 1)[0]
                <= cs[j].mr.iid,
    decreases cs.len(),
{
    lemma_rebase_queue_first(cs, flag);
    let q = rebase_queue_spec(cs, flag);
    assert(capped_rebases_spec(cs, flag, 1) == q.take(1));
    assert(q.take(1).len() == 1);
    assert(q.take(1)[0] == q[0]);
    let k = choose|k: int|
        0 <= k < cs.len() && needs_rebase(cs[k], flag) && rebase_queue_spec(cs, flag)[0]
            == cs[k].mr.iid && (forall|j: int| 0 <= j < k ==> !needs_rebase(cs[j], flag));
    assert(0 <= k < cs.len() && needs_rebase(cs[k], flag) && capped_rebases_spec(cs, flag, 1)[0]
        == cs[k].mr.iid);
    assert forall|j: int|
        0 <= j < cs.len() && needs_rebase(cs[j], flag) implies capped_rebases_spec(cs, flag, 1)[0]
        <= cs[j].mr.iid by {
        if j < k {
            assert(!needs_rebase(cs[j], flag));
        } else if j > k {
            assert(cs[k].mr.iid <= cs[j].mr.iid);
        }
    }
}

/// The text of the notification posted when a request is handed back to
/// its author, before the author's mention handle is appended.
pub open spec fn reason_text(r: Reason) -> Seq<char> {
    match r {
        Reason::MergeConflict => "MR has merge conflict. Help me @"@,
        Reason::PipelineFailed => "MR has failed pipeline. Help me @"@,
    }
}

/// Builds the notification message for one hand-back: the reason's text
/// followed by the author's mention handle.
pub fn notify_message(reason: Reason, username: &String) -> (r: String)
    ensures
        r@ == reason_text(reason) + username@,
{
    let mut s = match reason {
        Reason::MergeConflict => String::from_str("MR has merge conflict. Help me @"),
        Reason::PipelineFailed => String::from_str("MR has failed pipeline. Help me @"),
    };
    s.append(username.as_str());
    s
}

} // verus!
