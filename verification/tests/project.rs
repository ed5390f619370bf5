use worksplit::config::{Config, LimitsConfig};
use worksplit::file_cache::FileCache;
use worksplit::job::{JobMetadata, OutputMode};
use worksplit::jobs::{discovered_jobs, JobsManager};
use worksplit::parser::extract::count_lines;
use worksplit::status::{JobStatus, Timestamp};
use worksplit::store::StatusManager;

/// The names of the files in the jobs folder of a fresh project, with the
/// files of the given jobs.
fn project_files(job_ids: &[&str]) -> Vec<String> {
    let mut files = vec![
        "_systemprompt_create.md".to_string(),
        "_systemprompt_verify.md".to_string(),
        "_jobstatus.json".to_string(),
    ];
    files.extend(job_ids.iter().map(|id| format!("{}.md", id)));
    files
}

/// What a job file declares that names no more than its context files and
/// its output.
fn declared(output_dir: &str, output_file: &str) -> JobMetadata {
    JobMetadata {
        context_files: vec![],
        output_dir: output_dir.to_string(),
        output_file: output_file.to_string(),
        test_file: None,
        output_files: None,
        sequential: None,
        mode: OutputMode::default(),
        target_files: None,
        target_file: None,
        verify: true,
        struct_name: None,
        new_field: None,
    }
}

fn changed_at(secs: i64) -> Timestamp {
    Timestamp { secs, nanos: 0 }
}

#[test]
fn test_job_discovery() {
    let jobs = discovered_jobs(&project_files(&["job_001", "job_002"]));

    assert_eq!(jobs.len(), 2);
    assert!(jobs.contains(&"job_001".to_string()));
    assert!(jobs.contains(&"job_002".to_string()));
}

#[test]
fn test_status_sync() {
    let discovered = discovered_jobs(&project_files(&["job_a", "job_b"]));

    let mut status_manager = StatusManager::new();
    status_manager.sync_with_jobs(&discovered);

    let summary = status_manager.get_summary();
    assert_eq!(summary.total, 2);
    assert_eq!(summary.created, 2);
}

#[test]
fn test_status_transitions() {
    let discovered = discovered_jobs(&project_files(&["job_a"]));

    let mut status_manager = StatusManager::new();
    status_manager.sync_with_jobs(&discovered);

    status_manager.update_status("job_a", JobStatus::PendingWork).unwrap();
    assert_eq!(status_manager.get("job_a").unwrap().status, JobStatus::PendingWork);

    status_manager.update_status("job_a", JobStatus::PendingVerification).unwrap();
    assert_eq!(status_manager.get("job_a").unwrap().status, JobStatus::PendingVerification);

    status_manager.update_status("job_a", JobStatus::Pass).unwrap();
    assert_eq!(status_manager.get("job_a").unwrap().status, JobStatus::Pass);
}

#[test]
fn test_context_file_size_limit() {
    let large_content = (0..1100).map(|i| format!("// Line {}\n", i)).collect::<String>();

    let jobs_manager = JobsManager::new("project".to_string(), LimitsConfig::default());

    let result = jobs_manager.check_context_size("src/large.rs", count_lines(&large_content));
    assert!(result.is_err());
    assert!(jobs_manager.check_context_size("src/small.rs", 1000).is_ok());
}

#[test]
fn test_load_config_default() {
    let config = Config::default().with_overrides(None, None, None, false);

    assert_eq!(config.ollama.model, "qwen-32k:latest");
    assert_eq!(config.ollama.url, "http://localhost:11434");
}

#[test]
fn test_load_config_with_overrides() {
    let config = Config::default().with_overrides(
        Some("codellama".to_string()),
        Some("http://remote:11434".to_string()),
        Some(600),
        true,
    );

    assert_eq!(config.ollama.model, "codellama");
    assert_eq!(config.ollama.url, "http://remote:11434");
    assert_eq!(config.ollama.timeout_seconds, 600);
    assert!(!config.behavior.stream_output);
}

#[test]
fn test_job_metadata_default_no_test_file() {
    let metadata = declared("src/", "service.rs");
    assert_eq!(metadata.test_file, None);
    assert!(!metadata.is_tdd_enabled());
    assert_eq!(metadata.test_path(), None);
}

#[test]
fn test_job_metadata_sequential_mode_enabled() {
    let metadata = JobMetadata {
        output_files: Some(vec![
            "src/main.rs".to_string(),
            "src/lib.rs".to_string(),
            "src/models.rs".to_string(),
        ]),
        sequential: Some(true),
        ..declared("src/", "default.rs")
    };
    assert!(metadata.is_sequential());
    assert_eq!(metadata.output_files.as_ref().unwrap().len(), 3);
    let output_files = metadata.get_output_files();
    assert_eq!(output_files.len(), 3);
    assert_eq!(output_files[0], "src/main.rs");
    assert_eq!(output_files[1], "src/lib.rs");
    assert_eq!(output_files[2], "src/models.rs");
}

#[test]
fn test_job_metadata_sequential_mode_disabled_without_flag() {
    let metadata = JobMetadata {
        output_files: Some(vec!["src/main.rs".to_string(), "src/lib.rs".to_string()]),
        ..declared("src/", "default.rs")
    };
    assert!(!metadata.is_sequential());
    let output_files = metadata.get_output_files();
    assert_eq!(output_files.len(), 2);
}

#[test]
fn test_job_metadata_sequential_mode_without_output_files() {
    let metadata = JobMetadata { sequential: Some(true), ..declared("src/", "default.rs") };
    assert!(!metadata.is_sequential());
    let output_files = metadata.get_output_files();
    assert_eq!(output_files.len(), 1);
    assert_eq!(output_files[0], "src/default.rs");
}

#[test]
fn test_job_metadata_default_mode_is_replace() {
    let metadata = declared("src/", "service.rs");
    assert_eq!(metadata.mode, OutputMode::Replace);
}

#[test]
fn test_file_cache_get_or_load() {
    let mut cache = FileCache::new();
    assert!(cache.get_fresh("test.txt", changed_at(5)).is_none());
    cache.store("test.txt".to_string(), "Hello, world!\n".to_string(), changed_at(5));
    let entry = cache.get_fresh("test.txt", changed_at(5)).unwrap();

    assert_eq!(entry.content, "Hello, world!\n");
    assert_eq!(entry.line_count, 1);
    assert!(cache.get_fresh("test.txt", changed_at(6)).is_none());
}

#[test]
fn test_file_cache_get() {
    let mut cache = FileCache::new();
    cache.store("test.txt".to_string(), "Hello, world!\n".to_string(), changed_at(5));

    let entry = cache.get("test.txt");
    assert!(entry.is_some());
}

#[test]
fn test_file_cache_invalidate() {
    let mut cache = FileCache::new();
    cache.store("test.txt".to_string(), "Hello, world!\n".to_string(), changed_at(5));

    assert_eq!(cache.stats().entry_count, 1);

    cache.invalidate("test.txt");
    assert_eq!(cache.stats().entry_count, 0);
}

#[test]
fn test_file_cache_clear() {
    let mut cache = FileCache::new();
    cache.store("test.txt".to_string(), "Hello, world!\n".to_string(), changed_at(5));

    assert_eq!(cache.stats().entry_count, 1);

    cache.clear();
    assert_eq!(cache.stats().entry_count, 0);
}

#[test]
fn test_file_cache_stats() {
    let mut cache = FileCache::new();
    cache.store("test.txt".to_string(), "Hello, world!\n".to_string(), changed_at(5));

    let stats = cache.stats();
    assert_eq!(stats.entry_count, 1);
    assert_eq!(stats.total_bytes, 14);
    assert_eq!(stats.total_lines, 1);
}
