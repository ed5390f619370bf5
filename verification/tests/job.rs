use worksplit::job::{JobMetadata, JobValidationError, OutputMode};

#[test]
fn test_job_metadata_validate() {
    let metadata = JobMetadata {
        context_files: vec![String::from("a.rs"), String::from("b.rs")],
        output_dir: String::from("src/"),
        output_file: "output.rs".to_string(),
        test_file: None,
        output_files: None,
        sequential: None,
        mode: OutputMode::Replace,
        target_files: None,
        target_file: None,
        verify: true,
        struct_name: None,
        new_field: None,
    };
    assert!(metadata.validate(2).is_ok());
    assert!(metadata.validate(1).is_err());
}

#[test]
fn test_job_metadata_empty_output_file() {
    let metadata = JobMetadata {
        context_files: vec![],
        output_dir: String::from("src/"),
        output_file: "".to_string(),
        test_file: None,
        output_files: None,
        sequential: None,
        mode: OutputMode::Replace,
        target_files: None,
        target_file: None,
        verify: true,
        struct_name: None,
        new_field: None,
    };
    assert!(matches!(
        metadata.validate(2),
        Err(JobValidationError::EmptyOutputFile)
    ));
}

#[test]
fn test_output_path() {
    let metadata = JobMetadata {
        context_files: vec![],
        output_dir: String::from("src/services"),
        output_file: "user_service.rs".to_string(),
        test_file: None,
        output_files: None,
        sequential: None,
        mode: OutputMode::Replace,
        target_files: None,
        target_file: None,
        verify: true,
        struct_name: None,
        new_field: None,
    };
    assert_eq!(
        metadata.output_path(),
        String::from("src/services/user_service.rs")
    );
}

#[test]
fn test_job_metadata_tdd_enabled() {
    let metadata_with_test = JobMetadata {
        context_files: vec![],
        output_dir: String::from("src/"),
        output_file: "service.rs".to_string(),
        test_file: Some("service_test.rs".to_string()),
        output_files: None,
        sequential: None,
        mode: OutputMode::Replace,
        target_files: None,
        target_file: None,
        verify: true,
        struct_name: None,
        new_field: None,
    };
    assert!(metadata_with_test.is_tdd_enabled());

    let metadata_without_test = JobMetadata {
        context_files: vec![],
        output_dir: String::from("src/"),
        output_file: "service.rs".to_string(),
        test_file: None,
        output_files: None,
        sequential: None,
        mode: OutputMode::Replace,
        target_files: None,
        target_file: None,
        verify: true,
        struct_name: None,
        new_field: None,
    };
    assert!(!metadata_without_test.is_tdd_enabled());
}

#[test]
fn test_job_metadata_test_path() {
    let metadata_with_test = JobMetadata {
        context_files: vec![],
        output_dir: String::from("src/services"),
        output_file: "user_service.rs".to_string(),
        test_file: Some("user_service_test.rs".to_string()),
        output_files: None,
        sequential: None,
        mode: OutputMode::Replace,
        target_files: None,
        target_file: None,
        verify: true,
        struct_name: None,
        new_field: None,
    };
    assert_eq!(
        metadata_with_test.test_path(),
        Some(String::from("src/services/user_service_test.rs"))
    );

    let metadata_without_test = JobMetadata {
        context_files: vec![],
        output_dir: String::from("src/services"),
        output_file: "user_service.rs".to_string(),
        test_file: None,
        output_files: None,
        sequential: None,
        mode: OutputMode::Replace,
        target_files: None,
        target_file: None,
        verify: true,
        struct_name: None,
        new_field: None,
    };
    assert_eq!(metadata_without_test.test_path(), None);
}

#[test]
fn test_job_metadata_validate_empty_test_file() {
    let metadata = JobMetadata {
        context_files: vec![],
        output_dir: String::from("src/"),
        output_file: "service.rs".to_string(),
        test_file: Some("".to_string()),
        output_files: None,
        sequential: None,
        mode: OutputMode::Replace,
        target_files: None,
        target_file: None,
        verify: true,
        struct_name: None,
        new_field: None,
    };
    assert!(matches!(
        metadata.validate(2),
        Err(JobValidationError::EmptyTestFile)
    ));
}

#[test]
fn test_job_metadata_get_output_files_fallback() {
    let metadata = JobMetadata {
        context_files: vec![],
        output_dir: String::from("src/services"),
        output_file: "user_service.rs".to_string(),
        test_file: None,
        output_files: None,
        sequential: None,
        mode: OutputMode::Replace,
        target_files: None,
        target_file: None,
        verify: true,
        struct_name: None,
        new_field: None,
    };
    let output_files = metadata.get_output_files();
    assert_eq!(output_files.len(), 1);
    assert_eq!(output_files[0], String::from("src/services/user_service.rs"));
}

#[test]
fn test_job_metadata_validate_empty_output_files() {
    let metadata = JobMetadata {
        context_files: vec![],
        output_dir: String::from("src/"),
        output_file: "service.rs".to_string(),
        test_file: None,
        output_files: Some(vec![]),
        sequential: Some(true),
        mode: OutputMode::Replace,
        target_files: None,
        target_file: None,
        verify: true,
        struct_name: None,
        new_field: None,
    };
    assert!(matches!(
        metadata.validate(2),
        Err(JobValidationError::EmptyOutputFiles)
    ));
}

#[test]
fn test_job_metadata_validate_empty_path_in_output_files() {
    let metadata = JobMetadata {
        context_files: vec![],
        output_dir: String::from("src/"),
        output_file: "service.rs".to_string(),
        test_file: None,
        output_files: Some(vec![String::from("src/main.rs"), String::from("")]),
        sequential: Some(true),
        mode: OutputMode::Replace,
        target_files: None,
        target_file: None,
        verify: true,
        struct_name: None,
        new_field: None,
    };
    assert!(matches!(
        metadata.validate(2),
        Err(JobValidationError::EmptyOutputFilePath)
    ));
}

#[test]
fn test_job_metadata_is_edit_mode() {
    let metadata_replace = JobMetadata {
        context_files: vec![],
        output_dir: String::from("src/"),
        output_file: "service.rs".to_string(),
        test_file: None,
        output_files: None,
        sequential: None,
        mode: OutputMode::Replace,
        target_files: None,
        target_file: None,
        verify: true,
        struct_name: None,
        new_field: None,
    };
    assert!(!metadata_replace.is_edit_mode());

    let metadata_edit = JobMetadata {
        context_files: vec![],
        output_dir: String::from("src/"),
        output_file: "service.rs".to_string(),
        test_file: None,
        output_files: None,
        sequential: None,
        mode: OutputMode::Edit,
        target_files: None,
        target_file: None,
        verify: true,
        struct_name: None,
        new_field: None,
    };
    assert!(metadata_edit.is_edit_mode());
}

#[test]
fn test_job_metadata_get_target_files() {
    let metadata_with_targets = JobMetadata {
        context_files: vec![],
        output_dir: String::from("src/"),
        output_file: "service.rs".to_string(),
        test_file: None,
        output_files: None,
        sequential: None,
        mode: OutputMode::Edit,
        target_files: Some(vec![
            String::from("src/main.rs"),
            String::from("src/lib.rs"),
        ]),
        target_file: None,
        verify: true,
        struct_name: None,
        new_field: None,
    };
    let target_files = metadata_with_targets.get_target_files();
    assert_eq!(target_files.len(), 2);
    assert_eq!(target_files[0], String::from("src/main.rs"));
    assert_eq!(target_files[1], String::from("src/lib.rs"));

    let metadata_without_targets = JobMetadata {
        context_files: vec![],
        output_dir: String::from("src/services"),
        output_file: "user_service.rs".to_string(),
        test_file: None,
        output_files: None,
        sequential: None,
        mode: OutputMode::Edit,
        target_files: None,
        target_file: None,
        verify: true,
        struct_name: None,
        new_field: None,
    };
    let target_files = metadata_without_targets.get_target_files();
    assert_eq!(target_files.len(), 1);
    assert_eq!(target_files[0], String::from("src/services/user_service.rs"));
}

#[test]
fn test_job_metadata_validate_empty_target_files() {
    let metadata = JobMetadata {
        context_files: vec![],
        output_dir: String::from("src/"),
        output_file: "service.rs".to_string(),
        test_file: None,
        output_files: None,
        sequential: None,
        mode: OutputMode::Edit,
        target_files: Some(vec![]),
        target_file: None,
        verify: true,
        struct_name: None,
        new_field: None,
    };
    assert!(matches!(
        metadata.validate(2),
        Err(JobValidationError::EmptyTargetFiles)
    ));
}

#[test]
fn test_job_metadata_validate_empty_path_in_target_files() {
    let metadata = JobMetadata {
        context_files: vec![],
        output_dir: String::from("src/"),
        output_file: "service.rs".to_string(),
        test_file: None,
        output_files: None,
        sequential: None,
        mode: OutputMode::Edit,
        target_files: Some(vec![String::from("src/main.rs"), String::from("")]),
        target_file: None,
        verify: true,
        struct_name: None,
        new_field: None,
    };
    assert!(matches!(
        metadata.validate(2),
        Err(JobValidationError::EmptyTargetFilePath)
    ));
}

#[test]
fn test_job_metadata_validate_edit_mode_with_sequential() {
    let metadata = JobMetadata {
        context_files: vec![],
        output_dir: String::from("src/"),
        output_file: "service.rs".to_string(),
        test_file: None,
        output_files: Some(vec![String::from("src/main.rs")]),
        sequential: Some(true),
        mode: OutputMode::Edit,
        target_files: Some(vec![String::from("src/main.rs")]),
        target_file: None,
        verify: true,
        struct_name: None,
        new_field: None,
    };
    assert!(matches!(
        metadata.validate(2),
        Err(JobValidationError::EditModeWithSequential)
    ));
}

#[test]
fn test_job_metadata_is_split_mode() {
    let metadata_split = JobMetadata {
        context_files: vec![],
        output_dir: String::from("src/"),
        output_file: "runner.rs".to_string(),
        test_file: None,
        output_files: Some(vec![String::from("src/runner.rs"), String::from("src/runner_edit.rs")]),
        sequential: None,
        mode: OutputMode::Split,
        target_files: None,
        target_file: Some(String::from("src/runner.rs")),
        verify: true,
        struct_name: None,
        new_field: None,
    };
    assert!(metadata_split.is_split_mode());
    assert!(!metadata_split.is_edit_mode());
}

#[test]
fn test_job_metadata_split_mode_validation() {
    // Valid split mode
    let valid_metadata = JobMetadata {
        context_files: vec![],
        output_dir: String::from("src/"),
        output_file: "runner.rs".to_string(),
        test_file: None,
        output_files: Some(vec![String::from("src/runner.rs"), String::from("src/runner_edit.rs")]),
        sequential: None,
        mode: OutputMode::Split,
        target_files: None,
        target_file: Some(String::from("src/core/runner.rs")),
        verify: true,
        struct_name: None,
        new_field: None,
    };
    assert!(valid_metadata.validate(2).is_ok());
}

#[test]
fn test_job_metadata_split_mode_missing_target_file() {
    let metadata = JobMetadata {
        context_files: vec![],
        output_dir: String::from("src/"),
        output_file: "runner.rs".to_string(),
        test_file: None,
        output_files: Some(vec![String::from("src/runner.rs")]),
        sequential: None,
        mode: OutputMode::Split,
        target_files: None,
        target_file: None, // Missing!
        verify: true,
        struct_name: None,
        new_field: None,
    };
    assert!(matches!(
        metadata.validate(2),
        Err(JobValidationError::SplitMissingTargetFile)
    ));
}

#[test]
fn test_job_metadata_split_mode_missing_output_files() {
    let metadata = JobMetadata {
        context_files: vec![],
        output_dir: String::from("src/"),
        output_file: "runner.rs".to_string(),
        test_file: None,
        output_files: None, // Missing!
        sequential: None,
        mode: OutputMode::Split,
        target_files: None,
        target_file: Some(String::from("src/core/runner.rs")),
        verify: true,
        struct_name: None,
        new_field: None,
    };
    assert!(matches!(
        metadata.validate(2),
        Err(JobValidationError::SplitMissingOutputFiles)
    ));
}

#[test]
fn test_job_metadata_split_mode_with_sequential() {
    let metadata = JobMetadata {
        context_files: vec![],
        output_dir: String::from("src/"),
        output_file: "runner.rs".to_string(),
        test_file: None,
        output_files: Some(vec![String::from("src/runner.rs")]),
        sequential: Some(true), // Incompatible!
        mode: OutputMode::Split,
        target_files: None,
        target_file: Some(String::from("src/core/runner.rs")),
        verify: true,
        struct_name: None,
        new_field: None,
    };
    assert!(matches!(
        metadata.validate(2),
        Err(JobValidationError::SplitModeWithSequential)
    ));
}

