use worksplit::engine::{step, Event, JobPlan, Phase, Prompts, Request, RunSettings, RunState};
use worksplit::error::WorkSplitError;
use worksplit::job::{Job, JobMetadata, JobValidationError, OutputMode};

fn base() -> JobMetadata {
    JobMetadata {
        context_files: vec!["a.rs".to_string(), "b.rs".to_string()],
        output_dir: "src/".to_string(),
        output_file: "out.rs".to_string(),
        test_file: None,
        output_files: None,
        sequential: None,
        mode: OutputMode::Replace,
        target_files: None,
        target_file: None,
        verify: true,
        struct_name: None,
        new_field: None,
    }
}

fn with(change: impl FnOnce(&mut JobMetadata)) -> JobMetadata {
    let mut m = base();
    change(&mut m);
    m
}

fn some(v: &[&str]) -> Option<Vec<String>> {
    Some(v.iter().map(|s| s.to_string()).collect())
}

#[test]
fn each_rule_names_its_error_and_the_first_broken_rule_wins() {
    assert_eq!(base().validate(2), Ok(()));
    assert_eq!(
        base().validate(1),
        Err(JobValidationError::TooManyContextFiles { count: 2, max: 1 })
    );
    let cases: Vec<(JobMetadata, JobValidationError)> = vec![
        (with(|m| m.output_file.clear()), JobValidationError::EmptyOutputFile),
        (with(|m| m.test_file = Some(String::new())), JobValidationError::EmptyTestFile),
        (with(|m| m.output_files = some(&[])), JobValidationError::EmptyOutputFiles),
        (with(|m| m.output_files = some(&["a", ""])), JobValidationError::EmptyOutputFilePath),
        (
            with(|m| {
                m.mode = OutputMode::Edit;
                m.target_files = some(&[]);
            }),
            JobValidationError::EmptyTargetFiles,
        ),
        (
            with(|m| {
                m.mode = OutputMode::Edit;
                m.target_files = some(&["", "a"]);
            }),
            JobValidationError::EmptyTargetFilePath,
        ),
        (
            with(|m| {
                m.mode = OutputMode::Edit;
                m.sequential = Some(true);
                m.output_files = some(&["a"]);
            }),
            JobValidationError::EditModeWithSequential,
        ),
        (with(|m| m.mode = OutputMode::Split), JobValidationError::SplitMissingTargetFile),
        (
            with(|m| {
                m.mode = OutputMode::Split;
                m.target_file = Some(String::new());
            }),
            JobValidationError::SplitEmptyTargetFile,
        ),
        (
            with(|m| {
                m.mode = OutputMode::Split;
                m.target_file = Some("big.rs".to_string());
            }),
            JobValidationError::SplitMissingOutputFiles,
        ),
        (
            with(|m| {
                m.mode = OutputMode::Split;
                m.target_file = Some("big.rs".to_string());
                m.output_files = some(&["a"]);
                m.sequential = Some(true);
            }),
            JobValidationError::SplitModeWithSequential,
        ),
        (
            with(|m| m.mode = OutputMode::ReplacePattern),
            JobValidationError::ReplacePatternMissingTargetFiles,
        ),
        (
            with(|m| m.mode = OutputMode::UpdateFixtures),
            JobValidationError::UpdateFixturesMissingTargetFiles,
        ),
        (
            with(|m| {
                m.mode = OutputMode::UpdateFixtures;
                m.target_files = some(&["a"]);
            }),
            JobValidationError::UpdateFixturesMissingStructName,
        ),
        (
            with(|m| {
                m.mode = OutputMode::UpdateFixtures;
                m.target_files = some(&["a"]);
                m.struct_name = Some("S".to_string());
            }),
            JobValidationError::UpdateFixturesMissingNewField,
        ),
        (
            with(|m| {
                m.output_file.clear();
                m.test_file = Some(String::new());
                m.mode = OutputMode::Split;
            }),
            JobValidationError::EmptyOutputFile,
        ),
    ];
    for (metadata, error) in cases {
        assert_eq!(metadata.validate(2), Err(error));
    }
    let valid = with(|m| {
        m.mode = OutputMode::UpdateFixtures;
        m.target_files = some(&["a"]);
        m.struct_name = Some("S".to_string());
        m.new_field = Some("f: 1".to_string());
    });
    assert_eq!(valid.validate(2), Ok(()));
    assert_eq!(valid.get_struct_name(), Some(&"S".to_string()));
    assert_eq!(valid.get_new_field(), Some(&"f: 1".to_string()));
    assert!(valid.is_update_fixtures_mode() && !valid.is_replace_pattern_mode());
    assert!(valid.should_verify());
}

#[test]
fn split_without_target_file_ends_with_the_error_of_its_rule() {
    let mut m = base();
    m.mode = OutputMode::Split;
    m.output_files = some(&["a"]);
    let plan = JobPlan {
        job: Job::new("j".to_string(), m, String::new(), "jobs/j.md".to_string()),
        prompts: Prompts {
            create: String::new(),
            verify: String::new(),
            test: None,
            edit: String::new(),
            verify_edit: String::new(),
            split: Some("S".to_string()),
            fix: None,
        },
        settings: RunSettings {
            stream_output: false,
            verify_build: false,
            build_command: None,
            auto_fix: false,
            auto_fix_attempts: 0,
            jobs_dir: "jobs/".to_string(),
        },
        context_files: vec![],
    };
    let (state, action) = step(&plan, RunState::new(), Event::Begin);
    assert_eq!(state.phase, Phase::Done);
    match action.request {
        Request::Finish(Err(e)) => {
            assert_eq!(
                e,
                WorkSplitError::JobValidation(JobValidationError::SplitMissingTargetFile)
            );
            assert_eq!(e.message(), "Job validation error: split mode requires target_file");
        }
        other => panic!("not finished with an error: {:?}", other),
    }
}
