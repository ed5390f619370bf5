use worksplit::config::Config;
use worksplit::language::Language;

#[test]
fn test_default_config() {
    let config = Config::default();
    assert_eq!(config.project.language, Language::Rust);
    assert_eq!(config.ollama.url, "http://localhost:11434");
    assert_eq!(config.ollama.model, "qwen-32k:latest");
    assert_eq!(config.ollama.timeout_seconds, 300);
    assert_eq!(config.limits.max_output_lines, 900);
    assert_eq!(config.limits.max_context_lines, 1000);
    assert_eq!(config.limits.max_context_files, 2);
    assert!(config.behavior.stream_output);
    assert!(config.behavior.create_output_dirs);
}

#[test]
fn test_default_archive_config() {
    let config = Config::default();
    assert!(config.archive.enabled);
    assert_eq!(config.archive.days, 3);
}

#[test]
fn test_default_cleanup_config() {
    let config = Config::default();
    assert!(config.cleanup.enabled);
    assert_eq!(config.cleanup.days, 30);
}

#[test]
fn test_config_with_overrides() {
    let config = Config::default()
        .with_overrides(
            Some("llama3".to_string()),
            Some("http://remote:11434".to_string()),
            Some(600),
            true,
        );
    assert_eq!(config.ollama.model, "llama3");
    assert_eq!(config.ollama.url, "http://remote:11434");
    assert_eq!(config.ollama.timeout_seconds, 600);
    assert!(!config.behavior.stream_output);
}

