use worksplit::engine::StatusUpdate;
use worksplit::error::StatusError;
use worksplit::runner::jobs_to_run;
use worksplit::status::{FailedEdit, JobStatus, JobStatusEntry, PartialEditState, Timestamp};
use worksplit::store::StatusManager;

fn names(v: &[&str]) -> Vec<String> {
    v.iter().map(|s| s.to_string()).collect()
}

fn at(secs: i64) -> Timestamp {
    Timestamp { secs, nanos: 0 }
}

#[test]
fn unknown_job_is_an_error_and_changes_nothing() {
    let mut store = StatusManager::new();
    store.sync_at(&names(&["a"]), at(1));
    let missing = Err(StatusError::JobNotFound("x".to_string()));
    assert_eq!(store.update_status("x", JobStatus::Pass), missing);
    assert_eq!(store.set_failed("x", "m".to_string()), missing);
    assert_eq!(store.set_partial("x", PartialEditState::new()), missing);
    assert_eq!(store.mark_ran("x"), missing);
    assert_eq!(store.reset_job("x"), missing);
    store.clear_partial_state("x");
    assert!(store.get_failed_edits("x").is_none());
    assert_eq!(store.all_entries().len(), 1);
    assert_eq!(store.get("a").unwrap().updated_at, at(1));
    assert_eq!(
        StatusError::JobNotFound("x".to_string()).message(),
        "Job not found in status file: x"
    );
}

#[test]
fn update_clears_the_error_unless_the_status_is_fail() {
    let mut store = StatusManager::new();
    store.sync_at(&names(&["a"]), at(1));
    store.set_failed_at("a", "broken".to_string(), at(2)).unwrap();
    store.update_status_at("a", JobStatus::Fail, at(3)).unwrap();
    assert_eq!(store.get("a").unwrap().error, Some("broken".to_string()));
    assert_eq!(store.get("a").unwrap().updated_at, at(3));
    store.update_status_at("a", JobStatus::PendingWork, at(4)).unwrap();
    assert_eq!(store.get("a").unwrap().error, None);
    assert_eq!(store.get("a").unwrap().status, JobStatus::PendingWork);
}

#[test]
fn marking_as_run_keeps_the_status() {
    let mut store = StatusManager::new();
    store.sync_at(&names(&["a"]), at(1));
    store.set_failed_at("a", "broken".to_string(), at(2)).unwrap();
    store.mark_ran_at("a", at(3)).unwrap();
    let entry = store.get("a").unwrap();
    assert!(entry.ran);
    assert_eq!(entry.status, JobStatus::Fail);
    assert_eq!(entry.error, Some("broken".to_string()));
    assert_eq!(entry.updated_at, at(3));
}

#[test]
fn queries_select_by_status_and_run_flag() {
    let mut store = StatusManager::new();
    store.sync_at(&names(&["a", "b", "c", "d", "e"]), at(1));
    store.mark_ran_at("b", at(2)).unwrap();
    store.update_status_at("c", JobStatus::PendingWork, at(2)).unwrap();
    store.update_status_at("d", JobStatus::Pass, at(2)).unwrap();
    store.mark_ran_at("d", at(2)).unwrap();
    store.set_partial_at("e", PartialEditState::new(), at(2)).unwrap();
    store.mark_ran_at("e", at(2)).unwrap();
    let ids = |v: Vec<&JobStatusEntry>| v.iter().map(|e| e.id.clone()).collect::<Vec<_>>();
    assert_eq!(ids(store.get_ready_jobs()), names(&["a"]));
    assert_eq!(ids(store.get_ready_jobs_include_ran()), names(&["a", "b"]));
    assert_eq!(ids(store.get_stuck_jobs()), names(&["c", "e"]));
    assert_eq!(ids(store.get_ran_non_pass_jobs()), names(&["b", "e"]));
    assert_eq!(ids(store.get_by_status(JobStatus::Pass)), names(&["d"]));
    assert_eq!(ids(store.get_partial_jobs()), names(&["e"]));
    assert_eq!(jobs_to_run(&store, false, false), names(&["a"]));
    assert_eq!(jobs_to_run(&store, false, true), names(&["a", "b"]));
    assert_eq!(jobs_to_run(&store, true, false), names(&["a", "c", "e"]));
    let summary = store.get_summary();
    assert_eq!(summary.total, 5);
    assert_eq!(summary.created, 2);
    assert_eq!(summary.pending_work, 1);
    assert_eq!(summary.passed, 1);
    assert_eq!(summary.partial, 1);
    assert_eq!(summary.failed, 0);
    assert_eq!(
        summary.line(),
        "Total: 5 | Created: 2 | Pending: 1 | Partial: 1 | Passed: 1 | Failed: 0"
    );
}

#[test]
fn batch_updates_pass_over_unknown_jobs() {
    let mut store = StatusManager::new();
    store.sync_at(&names(&["a", "b"]), at(1));
    store.update_statuses_batch_at(
        &[
            ("a".to_string(), JobStatus::Pass),
            ("x".to_string(), JobStatus::Fail),
            ("b".to_string(), JobStatus::Fail),
            ("a".to_string(), JobStatus::PendingWork),
        ],
        at(2),
    );
    assert_eq!(store.get("a").unwrap().status, JobStatus::PendingWork);
    assert_eq!(store.get("b").unwrap().status, JobStatus::Fail);
    assert_eq!(store.all_entries().len(), 2);
    store.update_statuses_batch(&[("b".to_string(), JobStatus::Pass)]);
    assert_eq!(store.get("b").unwrap().status, JobStatus::Pass);
}

#[test]
fn entries_are_written_in_order_of_their_jobs() {
    let mut store = StatusManager::new();
    store.sync_at(&names(&["b", "ab", "a", "c"]), at(1));
    let ids: Vec<&str> = store.entries_by_id().iter().map(|e| e.id.as_str()).collect();
    assert_eq!(ids, vec!["a", "ab", "b", "c"]);
}

#[test]
fn later_record_of_a_job_takes_the_place_of_the_earlier() {
    let first = JobStatusEntry::new_at("a".to_string(), at(1));
    let other = JobStatusEntry::new_at("b".to_string(), at(2));
    let mut second = JobStatusEntry::new_at("a".to_string(), at(3));
    second.update_status_at(JobStatus::Pass, at(4));
    let store = StatusManager::from_entries(vec![first, other, second]);
    let ids: Vec<&str> = store.all_entries().iter().map(|e| e.id.as_str()).collect();
    assert_eq!(ids, vec!["a", "b"]);
    assert_eq!(store.get("a").unwrap().status, JobStatus::Pass);
    assert_eq!(store.get("a").unwrap().created_at, at(3));
}

#[test]
fn updates_of_a_step_are_applied_in_order() {
    let mut store = StatusManager::new();
    store.sync_at(&names(&["a"]), at(1));
    let mut state = PartialEditState::new();
    state.add_successful_edit("f.rs", "done");
    state.add_failed_edit("f.rs", "lost", "not found", Some(3));
    let updates = vec![
        StatusUpdate::Status(JobStatus::PendingWork),
        StatusUpdate::Fail("broken".to_string()),
        StatusUpdate::Partial(state),
        StatusUpdate::MarkRan,
    ];
    assert!(store.apply_updates("a", updates, at(2)).is_ok());
    let entry = store.get("a").unwrap();
    assert_eq!(entry.status, JobStatus::Partial);
    assert_eq!(entry.error, Some("broken".to_string()));
    assert!(entry.ran);
    let failed: Vec<FailedEdit> = store.get_failed_edits("a").unwrap();
    assert_eq!(failed.len(), 1);
    assert_eq!(failed[0].find_preview, "lost");
    assert_eq!(failed[0].reason, "not found");
    assert_eq!(failed[0].suggested_line, Some(3));
    assert!(store.apply_updates("x", vec![StatusUpdate::MarkRan], at(3)).is_err());
    store.clear_partial_state("a");
    assert!(store.get("a").unwrap().partial_state.is_none());
    assert_eq!(store.get("a").unwrap().updated_at, at(2));
}

#[test]
fn entry_changes_are_stamped() {
    let mut entry = JobStatusEntry::new_at("a".to_string(), at(1));
    entry.mark_ran_at(at(2));
    assert!(entry.ran);
    entry.clear_ran_at(at(3));
    assert!(!entry.ran);
    assert_eq!(entry.updated_at, at(3));
    entry.set_failed_at("m".to_string(), at(4));
    entry.reset_at(at(5));
    assert_eq!(entry.status, JobStatus::Created);
    assert_eq!(entry.error, None);
    assert_eq!(entry.created_at, at(1));
    entry.mark_ran();
    assert!(entry.ran);
    entry.clear_ran();
    assert!(!entry.ran);
    entry.clear_partial();
    assert!(entry.get_partial_state().is_none());
}
