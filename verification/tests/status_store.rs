use worksplit::status::{JobStatus, JobStatusEntry, PartialEditState};
use worksplit::store::StatusManager;

fn create_test_manager() -> ((), StatusManager) {
    ((), StatusManager::new())
}

fn reloaded(manager: &StatusManager) -> StatusManager {
    StatusManager::from_entries(manager.all_entries().into_iter().cloned().collect::<Vec<JobStatusEntry>>())
}

#[test]
fn test_new_manager() {
    let (_temp_dir, manager) = create_test_manager();
    assert!(manager.all_entries().is_empty());
}

#[test]
fn test_sync_with_jobs() {
    let (_temp_dir, mut manager) = create_test_manager();
    
    manager.sync_with_jobs(&["job1".to_string(), "job2".to_string()]);
    
    assert_eq!(manager.all_entries().len(), 2);
    assert!(manager.get("job1").is_some());
    assert!(manager.get("job2").is_some());
    assert_eq!(manager.get("job1").unwrap().status, JobStatus::Created);
}

#[test]
fn test_update_status() {
    let (_temp_dir, mut manager) = create_test_manager();
    
    manager.sync_with_jobs(&["job1".to_string()]);
    manager.update_status("job1", JobStatus::PendingWork).unwrap();
    
    assert_eq!(manager.get("job1").unwrap().status, JobStatus::PendingWork);
}

#[test]
fn test_set_failed() {
    let (_temp_dir, mut manager) = create_test_manager();
    
    manager.sync_with_jobs(&["job1".to_string()]);
    manager.set_failed("job1", "Test error".to_string()).unwrap();
    
    let entry = manager.get("job1").unwrap();
    assert_eq!(entry.status, JobStatus::Fail);
    assert_eq!(entry.error, Some("Test error".to_string()));
}

#[test]
fn test_get_summary() {
    let (_temp_dir, mut manager) = create_test_manager();
    
    manager.sync_with_jobs(&["job1".to_string(), "job2".to_string(), "job3".to_string()]);
    manager.update_status("job2", JobStatus::Pass).unwrap();
    manager.set_failed("job3", "Error".to_string()).unwrap();
    
    let summary = manager.get_summary();
    assert_eq!(summary.total, 3);
    assert_eq!(summary.created, 1);
    assert_eq!(summary.passed, 1);
    assert_eq!(summary.failed, 1);
}

#[test]
fn test_persistence() {
    let saved;
    
    // Create and save
    {
        let mut manager = StatusManager::new();
        manager.sync_with_jobs(&["job1".to_string()]);
        manager.update_status("job1", JobStatus::Pass).unwrap();
        saved = manager;
    }
    
    // Load again
    {
        let manager = reloaded(&saved);
        assert_eq!(manager.get("job1").unwrap().status, JobStatus::Pass);
    }
}

#[test]
fn test_set_partial_status() {
    let (_temp_dir, mut manager) = create_test_manager();
    
    manager.sync_with_jobs(&["job1".to_string()]);
    
    let state = PartialEditState {
        successful_edits: vec![],
        failed_edits: vec![],
    };
    manager.set_partial("job1", state).unwrap();
    
    let entry = manager.get("job1").unwrap();
    assert_eq!(entry.status, JobStatus::Partial);
    assert!(entry.partial_state.is_some());
}

#[test]
fn test_get_failed_edits() {
    let (_temp_dir, mut manager) = create_test_manager();
    
    manager.sync_with_jobs(&["job1".to_string()]);
    
    let state = PartialEditState {
        successful_edits: vec![],
        failed_edits: vec![],
    };
    manager.set_partial("job1", state).unwrap();
    
    let failed_edits = manager.get_failed_edits("job1").unwrap();
    assert_eq!(failed_edits.len(), 0);
}

#[test]
fn test_clear_partial_state() {
    let (_temp_dir, mut manager) = create_test_manager();
    
    manager.sync_with_jobs(&["job1".to_string()]);
    
    let state = PartialEditState {
        successful_edits: vec![],
        failed_edits: vec![],
    };
    manager.set_partial("job1", state).unwrap();
    
    assert!(manager.get("job1").unwrap().partial_state.is_some());
    
    manager.clear_partial_state("job1");
    
    assert!(manager.get("job1").unwrap().partial_state.is_none());
}

#[test]
fn test_get_summary_with_partial() {
    let (_temp_dir, mut manager) = create_test_manager();
    
    manager.sync_with_jobs(&["job1".to_string(), "job2".to_string(), "job3".to_string()]);
    
    let state = PartialEditState {
        successful_edits: vec![],
        failed_edits: vec![],
    };
    manager.set_partial("job2", state).unwrap();
    
    let summary = manager.get_summary();
    assert_eq!(summary.total, 3);
    assert_eq!(summary.created, 2);
    assert_eq!(summary.partial, 1);
}

#[test]
fn test_partial_job_persistence() {
    let saved;
    
    // Create and save
    {
        let mut manager = StatusManager::new();
        manager.sync_with_jobs(&["job1".to_string()]);
        
        let state = PartialEditState {
            successful_edits: vec![],
            failed_edits: vec![],
        };
        manager.set_partial("job1", state).unwrap();
        saved = manager;
    }
    
    // Load again
    {
        let manager = reloaded(&saved);
        let entry = manager.get("job1").unwrap();
        assert_eq!(entry.status, JobStatus::Partial);
        assert!(entry.partial_state.is_some());
    }
}

#[test]
fn test_get_partial_jobs() {
    let (_temp_dir, mut manager) = create_test_manager();
    
    manager.sync_with_jobs(&["job1".to_string(), "job2".to_string(), "job3".to_string()]);
    
    let state = PartialEditState {
        successful_edits: vec![],
        failed_edits: vec![],
    };
    manager.set_partial("job2", state).unwrap();
    
    let partial_jobs = manager.get_partial_jobs();
    assert_eq!(partial_jobs.len(), 1);
    assert_eq!(partial_jobs[0].id, "job2");
}

