use merge_train::model::Candidate;
use merge_train::model::PassConfig;
use merge_train::model::PipelineStatus;
use merge_train::model::Reason;
use merge_train::model::SelfMergeRequest;
use merge_train::model::SelfPipeline;
use merge_train::model::SelfUser;
use merge_train::schedule::notify_message;
use merge_train::schedule::plan_pass;
use merge_train::snapshot::sort_candidates_by_iid;

fn user(name: &str, username: &str, id: u64) -> SelfUser {
    SelfUser { name: name.to_string(), username: username.to_string(), id }
}

fn mr(iid: u64, conflicts: bool, author: SelfUser) -> SelfMergeRequest {
    SelfMergeRequest {
        iid,
        title: format!("change {}", iid),
        has_conflicts: conflicts,
        sha: Some(format!("sha{}", iid)),
        assignees: Some(vec![user("Marge", "marge", 1)]),
        source_branch: format!("feature-{}", iid),
        target_branch: "main".to_string(),
        author,
    }
}

fn pipeline(status: PipelineStatus, id: u64) -> SelfPipeline {
    SelfPipeline { status, id }
}

fn config(cap: usize) -> PassConfig {
    PassConfig { reassign_on_pipeline_failure: false, rebase_cap: cap, cancel_stale_pipelines: true }
}

#[test]
fn scenario_two_need_rebase_cap_one() {
    let three = Candidate::new(mr(3, false, user("Ann", "ann", 2)), vec![], false);
    let nine = Candidate::new(
        mr(9, false, user("Ben", "ben", 3)),
        vec![pipeline(PipelineStatus::Running, 90)],
        false,
    );
    let plan = plan_pass(&vec![three, nine], &config(1));
    assert_eq!(plan.rebases, vec![3]);
    assert_eq!(plan.cancellations, vec![90]);
    assert!(plan.reassignments.is_empty());
    assert!(plan.merges.is_empty());
}

#[test]
fn cap_one_takes_smallest_after_sort() {
    let mk = |iid: u64| Candidate::new(mr(iid, false, user("Ann", "ann", 2)), vec![], false);
    let unsorted = vec![mk(9), mk(4), mk(7)];
    let sorted = sort_candidates_by_iid(unsorted);
    let plan = plan_pass(&sorted, &config(1));
    assert_eq!(plan.rebases, vec![4]);
}

#[test]
fn cap_two_takes_first_two_in_order() {
    let mk = |iid: u64| Candidate::new(mr(iid, false, user("Ann", "ann", 2)), vec![], false);
    let sorted = sort_candidates_by_iid(vec![mk(9), mk(4), mk(7)]);
    let plan = plan_pass(&sorted, &config(2));
    assert_eq!(plan.rebases, vec![4, 7]);
}

#[test]
fn scenario_conflict_only_reassigns() {
    let author = user("Alice", "alice", 7);
    let five = Candidate::new(mr(5, true, author.clone()), vec![], false);
    let plan = plan_pass(&vec![five], &config(1));
    assert_eq!(plan.reassignments.len(), 1);
    assert_eq!(plan.reassignments[0].iid, 5);
    assert_eq!(plan.reassignments[0].author, author);
    assert_eq!(plan.reassignments[0].reason, Reason::MergeConflict);
    assert!(plan.rebases.is_empty());
    assert!(plan.merges.is_empty());
    assert!(plan.cancellations.is_empty());
}

#[test]
fn scenario_green_rebased_merges() {
    let seven = Candidate::new(
        mr(7, false, user("Bob", "bob", 8)),
        vec![pipeline(PipelineStatus::Success, 200)],
        true,
    );
    let plan = plan_pass(&vec![seven], &config(1));
    assert_eq!(plan.merges, vec![7]);
    assert!(plan.reassignments.is_empty());
    assert!(plan.rebases.is_empty());
    assert!(plan.cancellations.is_empty());
}

#[test]
fn scenario_running_rebased_no_dispatch() {
    let two = Candidate::new(
        mr(2, false, user("Dan", "dan", 10)),
        vec![pipeline(PipelineStatus::Running, 400)],
        true,
    );
    let plan = plan_pass(&vec![two], &config(1));
    assert!(plan.reassignments.is_empty());
    assert!(plan.cancellations.is_empty());
    assert!(plan.rebases.is_empty());
    assert!(plan.merges.is_empty());
}

#[test]
fn merges_are_never_capped() {
    let mk = |iid: u64| {
        Candidate::new(
            mr(iid, false, user("Bob", "bob", 8)),
            vec![pipeline(PipelineStatus::Success, iid * 10)],
            true,
        )
    };
    let plan = plan_pass(&vec![mk(1), mk(2), mk(3)], &config(1));
    assert_eq!(plan.merges, vec![1, 2, 3]);
}

#[test]
fn cancellation_can_be_switched_off() {
    let nine = Candidate::new(
        mr(9, false, user("Ben", "ben", 3)),
        vec![pipeline(PipelineStatus::Running, 90)],
        false,
    );
    let cfg = PassConfig {
        reassign_on_pipeline_failure: false,
        rebase_cap: 1,
        cancel_stale_pipelines: false,
    };
    let plan = plan_pass(&vec![nine], &cfg);
    assert!(plan.cancellations.is_empty());
    assert_eq!(plan.rebases, vec![9]);
}

#[test]
fn only_in_flight_runs_are_canceled() {
    let nine = Candidate::new(
        mr(9, false, user("Ben", "ben", 3)),
        vec![
            pipeline(PipelineStatus::Failed, 91),
            pipeline(PipelineStatus::Pending, 92),
            pipeline(PipelineStatus::Running, 93),
            pipeline(PipelineStatus::Success, 94),
        ],
        false,
    );
    let plan = plan_pass(&vec![nine], &config(1));
    assert_eq!(plan.cancellations, vec![92, 93]);
}

#[test]
fn reassign_on_failure_policy_feeds_plan() {
    let author = user("Cara", "cara", 9);
    let eight = Candidate::new(
        mr(8, false, author.clone()),
        vec![pipeline(PipelineStatus::Failed, 300)],
        false,
    );
    let cfg = PassConfig {
        reassign_on_pipeline_failure: true,
        rebase_cap: 1,
        cancel_stale_pipelines: true,
    };
    let plan = plan_pass(&vec![eight], &cfg);
    assert_eq!(plan.reassignments.len(), 1);
    assert_eq!(plan.reassignments[0].reason, Reason::PipelineFailed);
    assert!(plan.rebases.is_empty());
}

#[test]
fn no_candidates_empty_plan() {
    let plan = plan_pass(&vec![], &config(1));
    assert!(plan.reassignments.is_empty());
    assert!(plan.cancellations.is_empty());
    assert!(plan.rebases.is_empty());
    assert!(plan.merges.is_empty());
}

#[test]
fn cap_beyond_queue_takes_all() {
    let mk = |iid: u64| Candidate::new(mr(iid, false, user("Ann", "ann", 2)), vec![], false);
    let plan = plan_pass(&vec![mk(4), mk(7)], &config(5));
    assert_eq!(plan.rebases, vec![4, 7]);
}

#[test]
fn cap_zero_rebases_nothing() {
    let mk = |iid: u64| Candidate::new(mr(iid, false, user("Ann", "ann", 2)), vec![], false);
    let plan = plan_pass(&vec![mk(4), mk(7)], &config(0));
    assert!(plan.rebases.is_empty());
}

#[test]
fn notification_texts() {
    let msg = notify_message(Reason::MergeConflict, &"alice".to_string());
    assert_eq!(msg, "MR has merge conflict. Help me @alice");
    let msg = notify_message(Reason::PipelineFailed, &"bob".to_string());
    assert_eq!(msg, "MR has failed pipeline. Help me @bob");
}
