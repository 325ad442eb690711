use merge_train::model::Candidate;
use merge_train::model::SelfCommit;
use merge_train::model::SelfMergeRequest;
use merge_train::model::SelfUser;
use merge_train::snapshot::is_assignee_to_marge_bot;
use merge_train::snapshot::is_rebased;
use merge_train::snapshot::retain_assigned;
use merge_train::snapshot::sort_candidates_by_iid;

fn user(name: &str, username: &str, id: u64) -> SelfUser {
    SelfUser { name: name.to_string(), username: username.to_string(), id }
}

fn mr_with_assignees(iid: u64, assignees: Option<Vec<SelfUser>>) -> SelfMergeRequest {
    SelfMergeRequest {
        iid,
        title: format!("change {}", iid),
        has_conflicts: false,
        sha: Some(format!("sha{}", iid)),
        assignees,
        source_branch: format!("feature-{}", iid),
        target_branch: "main".to_string(),
        author: user("Ann", "ann", 2),
    }
}

fn commit(id: &str) -> SelfCommit {
    SelfCommit { id: id.to_string() }
}

#[test]
fn assignee_gate_matches_exact_name() {
    let bot = "Marge".to_string();
    let assigned = mr_with_assignees(1, Some(vec![user("Marge", "marge", 1)]));
    assert!(is_assignee_to_marge_bot(&assigned, &bot));
    let other = mr_with_assignees(2, Some(vec![user("marge", "marge", 1)]));
    assert!(!is_assignee_to_marge_bot(&other, &bot));
    let none = mr_with_assignees(3, None);
    assert!(!is_assignee_to_marge_bot(&none, &bot));
    let empty = mr_with_assignees(4, Some(vec![]));
    assert!(!is_assignee_to_marge_bot(&empty, &bot));
}

#[test]
fn retain_assigned_keeps_only_bot_requests_in_order() {
    let bot = "Marge".to_string();
    let mrs = vec![
        mr_with_assignees(1, Some(vec![user("Marge", "marge", 1)])),
        mr_with_assignees(2, None),
        mr_with_assignees(3, Some(vec![user("Ann", "ann", 2), user("Marge", "marge", 1)])),
        mr_with_assignees(4, Some(vec![user("Ann", "ann", 2)])),
    ];
    let kept = retain_assigned(mrs, &bot);
    let iids: Vec<u64> = kept.iter().map(|m| m.iid).collect();
    assert_eq!(iids, vec![1, 3]);
}

#[test]
fn rebase_state_from_commit_lists() {
    let target = vec![commit("t1"), commit("t0")];
    let contains_tip = vec![commit("s2"), commit("t1"), commit("t0")];
    assert!(is_rebased(&contains_tip, &target));
    let misses_tip = vec![commit("s2"), commit("t0")];
    assert!(!is_rebased(&misses_tip, &target));
}

#[test]
fn empty_target_history_counts_as_not_rebased() {
    let source = vec![commit("s1")];
    let target: Vec<SelfCommit> = vec![];
    assert!(!is_rebased(&source, &target));
    let empty_source: Vec<SelfCommit> = vec![];
    let target = vec![commit("t1")];
    assert!(!is_rebased(&empty_source, &target));
}

#[test]
fn sorting_orders_by_identifier_ascending() {
    let mk = |iid: u64| Candidate::new(mr_with_assignees(iid, None), vec![], false);
    let sorted = sort_candidates_by_iid(vec![mk(9), mk(2), mk(7), mk(2)]);
    let iids: Vec<u64> = sorted.iter().map(|c| c.mr.iid).collect();
    assert_eq!(iids, vec![2, 2, 7, 9]);
}

#[test]
fn sorting_keeps_every_candidate() {
    let mk = |iid: u64| Candidate::new(mr_with_assignees(iid, None), vec![], false);
    let sorted = sort_candidates_by_iid(vec![mk(5), mk(1), mk(5)]);
    assert_eq!(sorted.len(), 3);
    let iids: Vec<u64> = sorted.iter().map(|c| c.mr.iid).collect();
    assert_eq!(iids, vec![1, 5, 5]);
}
