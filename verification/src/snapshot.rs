//! Pure parts of the snapshot builder: which merge requests the bot may
//! act on, and whether a source branch already contains the target
//! branch's tip.  Fetching from the code host is the caller's job; these
//! functions decide, the caller hands them what it fetched.

use vstd::multiset::Multiset;
use vstd::prelude::*;

use crate::model::Candidate;
use crate::model::SelfCommit;
use crate::model::SelfMergeRequest;
use crate::model::SelfUser;

verus! {

broadcast use vstd::seq_lib::group_to_multiset_ensures;

/// Some user in the list bears this display name.
pub open spec fn some_user_named(users: Seq<SelfUser>, name: Seq<char>) -> bool {
    exists|i: int| 0 <= i < users.len() && users[i].name@ == name
}

/// The merge request's assignee set contains a user with this display
/// name.  This is the sole authorization gate: requests not assigned to
/// the bot are invisible to the rest of the system.
pub open spec fn assigned_to(mr: SelfMergeRequest, name: Seq<char>) -> bool {
    match mr.assignees {
        Option::None => false,
        Option::Some(users) => some_user_named(users@, name),
    }
}

/// Whether this merge request is assigned to the account with the given
/// display name (exact match).
pub fn is_assignee_to_marge_bot(mr: &SelfMergeRequest, name: &String) -> (r: bool)
    ensures
        r == assigned_to(*mr, name@),
{
    match &mr.assignees {
        Option::None => false,
        Option::Some(users) => {
            let mut i: usize = 0;
            while i < users.len()
                invariant
                    mr.assignees == Option::Some(*users),
                    0 <= i <= users@.len(),
                    forall|k: int| 0 <= k < i ==> users@[k].name@ != name@,
                decreases users@.len() - i,
            {
                if users[i].name == *name {
                    proof {
                        assert(0 <= i < users@.len() && users@[i as int].name@ == name@);
                        assert(some_user_named(users@, name@));
                    }
                    return true;
                }
                i += 1;
            }
            false
        },
    }
}

/// The source branch already contains the target branch's current tip:
/// the target's most recent commit identifier appears somewhere in the
/// source branch's recent history.  An empty target history counts as
/// not rebased.
pub open spec fn rebased_onto(source: Seq<SelfCommit>, target: Seq<SelfCommit>) -> bool {
    target.len() > 0 && exists|i: int| 0 <= i < source.len() && source[i].id@ == target[0].id@
}

/// Decides the rebase state from the two branches' recent commit lists,
/// each most recent first.
pub fn is_rebased(source_commits: &Vec<SelfCommit>, target_commits: &Vec<SelfCommit>) -> (r: bool)
    ensures
        r == rebased_onto(source_commits@, target_commits@),
{
    if target_commits.len() == 0 {
        false
    } else {
        let mut i: usize = 0;
        while i < source_commits.len()
            invariant
                0 <= i <= source_commits@.len(),
                target_commits@.len() > 0,
                forall|k: int| 0 <= k < i ==> source_commits@[k].id@ != target_commits@[0].id@,
            decreases source_commits@.len() - i,
        {
            if source_commits[i].id == target_commits[0].id {
                return true;
            }
            i += 1;
        }
        false
    }
}

/// The subsequence of merge requests assigned to the given display name,
/// in their original order.
pub open spec fn assigned_spec(mrs: Seq<SelfMergeRequest>, name: Seq<char>) -> Seq<
    SelfMergeRequest,
>
    decreases mrs.len(),
{
    if mrs.len() == 0 {
        Seq::empty()
    } else if assigned_to(mrs.first(), name) {
        seq![mrs.first()] + assigned_spec(mrs.drop_first(), name)
    } else {
        assigned_spec(mrs.drop_first(), name)
    }
}

/// Retains exactly the merge requests assigned to the bot, keeping their
/// order.  Everything else receives zero actions this pass.
pub fn retain_assigned(mrs: Vec<SelfMergeRequest>, name: &String) -> (r: Vec<SelfMergeRequest>)
    ensures
        r@ == assigned_spec(mrs@, name@),
{
    let ghost orig: Seq<SelfMergeRequest> = mrs@;
    let mut rest = mrs;
    let mut out: Vec<SelfMergeRequest> = Vec::new();
    while rest.len() > 0
        invariant
            assigned_spec(orig, name@) == out@ + assigned_spec(rest@, name@),
        decreases rest@.len(),
    {
        let ghost before: Seq<SelfMergeRequest> = rest@;
        let mr = rest.remove(0);
        proof {
            assert(before.remove(0) =~= before.drop_first());
        }
        if is_assignee_to_marge_bot(&mr, name) {
            out.push(mr);
            proof {
                assert(out@ + assigned_spec(rest@, name@) =~= assigned_spec(orig, name@));
            }
        }
    }
    proof {
        assert(out@ + assigned_spec(rest@, name@) =~= out@);
    }
    out
}

/// The candidates stand in ascending merge-request identifier order —
/// the throttling fairness rule the scheduler relies on.
pub open spec fn sorted_by_iid(cs: Seq<Candidate>) -> bool {
    forall|i: int, j: int| 0 <= i < j < cs.len() ==> cs[i].mr.iid <= cs[j].mr.iid
}

/// Orders the candidates by merge-request identifier, smallest first,
/// keeping exactly the same collection of candidates.
pub fn sort_candidates_by_iid(candidates: Vec<Candidate>) -> (r: Vec<Candidate>)
    ensures
        sorted_by_iid(r@),
        r@.to_multiset() == candidates@.to_multiset(),
{
    let ghost orig: Seq<Candidate> = candidates@;
    let mut rest = candidates;
    let mut out: Vec<Candidate> = Vec::new();
    while rest.len() > 0
        invariant
            out@.to_multiset().add(rest@.to_multiset()) == orig.to_multiset(),
            sorted_by_iid(out@),
            forall|a: int, b: int|
                0 <= a < out@.len() && 0 <= b < rest@.len() ==> out@[a].mr.iid <= rest@[b].mr.iid,
        decreases rest@.len(),
    {
        let mut m: usize = 0;
        let mut k: usize = 1;
        while k < rest.len()
            invariant
                0 < rest@.len(),
                0 <= m < k <= rest@.len(),
                forall|t: int| 0 <= t < k ==> rest@[m as int].mr.iid <= rest@[t].mr.iid,
            decreases rest@.len() - k,
        {
            if rest[k].mr.iid < rest[m].mr.iid {
                m = k;
            }
            k += 1;
        }
        let ghost before: Seq<Candidate> = rest@;
        let ghost out_before: Seq<Candidate> = out@;
        let c = rest.remove(m);
        out.push(c);
        proof {
            assert(before.contains(before[m as int]));
            assert(before.to_multiset().count(c) > 0);
            vstd::seq_lib::to_multiset_build::<Candidate>(out_before, c);
            vstd::seq_lib::to_multiset_remove::<Candidate>(before, m as int);
            assert(out@.to_multiset() =~= out_before.to_multiset().insert(c));
            assert(out@.to_multiset().add(rest@.to_multiset()) =~= orig.to_multiset());
            assert forall|b: int| 0 <= b < rest@.len() implies c.mr.iid
                <= rest@[b].mr.iid by {
                if b < m {
                    assert(rest@[b] == before[b]);
                } else {
                    assert(rest@[b] == before[b + 1]);
                }
            }
        }
    }
    proof {
        assert(rest@.to_multiset() =~= Multiset::<Candidate>::empty());
        assert(out@.to_multiset() =~= orig.to_multiset());
    }
    out
}

} // verus!
