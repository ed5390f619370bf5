use worksplit::commands::ChatMessage;
use worksplit::file_cache::FileCache;
use worksplit::fix::{FixResult, FixSummary};
use worksplit::jobs::{JobsManager, TEST_PROMPT_FILE};
use worksplit::scaffold::{name_to_title, validate_job_name};

#[test]
fn test_fix_result_success() {
    let result = FixResult::success(3);
    assert!(result.success);
    assert_eq!(result.files_written, 3);
    assert!(result.error.is_none());
}

#[test]
fn test_fix_result_failure() {
    let result = FixResult::failure("Some error".to_string());
    assert!(!result.success);
    assert_eq!(result.files_written, 0);
    assert_eq!(result.error, Some("Some error".to_string()));
}

#[test]
fn test_fix_result_no_errors() {
    let result = FixResult::no_errors();
    assert!(result.success);
    assert_eq!(result.files_written, 0);
    assert!(result.error.is_none());
}

#[test]
fn test_fix_summary_default() {
    let summary = FixSummary {
        fixed: 5,
        failed: 2,
        skipped: 3,
    };
    assert_eq!(summary.fixed, 5);
    assert_eq!(summary.failed, 2);
    assert_eq!(summary.skipped, 3);
}

#[test]
fn test_validate_job_name_valid() {
    assert!(validate_job_name("auth_001_login").is_ok());
    assert!(validate_job_name("feature-test").is_ok());
    assert!(validate_job_name("simple").is_ok());
}

#[test]
fn test_validate_job_name_empty() {
    assert!(validate_job_name("").is_err());
}

#[test]
fn test_validate_job_name_invalid_chars() {
    assert!(validate_job_name("has space").is_err());
    assert!(validate_job_name("has.dot").is_err());
    assert!(validate_job_name("has/slash").is_err());
}

#[test]
fn test_validate_job_name_underscore_prefix() {
    assert!(validate_job_name("_system").is_err());
}

#[test]
fn test_name_to_title() {
    assert_eq!(name_to_title("auth_001_login"), "Auth Login");
    assert_eq!(name_to_title("template_002_new_job"), "Template New Job");
    assert_eq!(name_to_title("simple"), "Simple");
}

#[test]
fn test_file_cache_new() {
    let cache = FileCache::new();
    assert_eq!(cache.stats().entry_count, 0);
}

#[test]
fn test_estimate_tokens() {
    // 100 chars should be ~25 tokens
    let content = "a".repeat(100);
    assert_eq!(JobsManager::estimate_tokens(&content), 25);
}

#[test]
fn test_job_id_extraction() {
    let filename = "my_job_001.md";
    let id = filename.trim_end_matches(".md");
    assert_eq!(id, "my_job_001");
}

#[test]
fn test_load_test_prompt() {
    // This test would require a mock file system setup
    // In practice, this would be tested with integration tests
    assert_eq!(TEST_PROMPT_FILE, "_systemprompt_test.md");
}

#[test]
fn test_load_test_prompt_optional_exists() {
    // This test would require a mock file system setup
    // In practice, this would be tested with integration tests
    assert_eq!(TEST_PROMPT_FILE, "_systemprompt_test.md");
}

#[test]
fn test_load_test_prompt_optional_missing() {
    // This test would require a mock file system setup
    // In practice, this would be tested with integration tests
    assert_eq!(TEST_PROMPT_FILE, "_systemprompt_test.md");
}

#[test]
fn test_chat_message_constructors() {
    let sys = ChatMessage::system("You are helpful");
    assert_eq!(sys.role, "system");
    assert_eq!(sys.content, "You are helpful");
    
    let user = ChatMessage::user("Hello");
    assert_eq!(user.role, "user");
    assert_eq!(user.content, "Hello");
}

