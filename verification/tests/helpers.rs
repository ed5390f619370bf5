use worksplit::commands::{
    archivable, config_for_model, cutoff, days_old, has_model, head_lines, is_earlier, model_names,
    reset_candidates, sort_models_by_priority, RunOptions, ValidationResult,
};
use worksplit::config::{Config, ConfigError};
use worksplit::error::{JobParseError, OllamaError, StatusError, WorkSplitError};
use worksplit::error_type::ErrorType;
use worksplit::file_cache::FileCache;
use worksplit::fix::{
    assemble_file_fix_prompt, fix_step, FixEvent, FixOutcome, FixPhase, FixRequest, FixState,
    FixSummary,
};
use worksplit::job::{join_path, JobTemplate, JobValidationError};
use worksplit::jobs::{discovered_jobs, is_system_file, job_id_of, JobsManager};
use worksplit::language::Language;
use worksplit::parser::edit::{parse_edit_instructions, ParsedEdits};
use worksplit::parser::prompts::{
    assemble_edit_prompt, assemble_retry_prompt, assemble_retry_prompt_multi, assemble_split_prompt,
    assemble_verification_prompt, assemble_verification_prompt_multi,
};
use worksplit::runner::{generate_suggestions, plan_edits, PlannedEditStatus, RunSummary};
use worksplit::scaffold::{
    check_job_name, format_context_files, format_target_files, generate_template, name_to_title,
    validate_job_name,
};
use worksplit::status::{FailedEdit, JobStatus, JobStatusEntry, PartialEditState, Timestamp};
use worksplit::stream::{Answer, LineBuffer};
use worksplit::templates::{get_templates, rust, typescript};
use worksplit::text::{chars_of, sort_strings, string_of};

fn names(v: &[&str]) -> Vec<String> {
    v.iter().map(|s| s.to_string()).collect()
}

fn at(secs: i64) -> Timestamp {
    Timestamp { secs, nanos: 0 }
}

#[test]
fn job_names_hold_letters_digits_underscores_and_hyphens() {
    assert!(validate_job_name("caf\u{e9}_\u{662}-x").is_ok());
    let message = |r: Result<(), WorkSplitError>| r.unwrap_err().message();
    assert_eq!(message(validate_job_name("")), "Invalid job name: Job name cannot be empty");
    assert_eq!(
        message(validate_job_name("a b.c")),
        "Invalid job name: Invalid character ' ' in job name. Use only alphanumeric, underscore, or hyphen."
    );
    assert_eq!(
        message(validate_job_name("_a")),
        "Invalid job name: Job name cannot start with underscore (reserved for system files)"
    );
    assert_eq!(
        message(validate_job_name("_a!")),
        "Invalid job name: Invalid character '!' in job name. Use only alphanumeric, underscore, or hyphen."
    );
    assert!(check_job_name("a b", None).is_ok());
    assert!(check_job_name("ab", Some('x')).is_err());
}

#[test]
fn titles_capitalise_the_parts_that_are_not_numbers() {
    assert_eq!(name_to_title("\u{df}x_\u{662}\u{663}__b2_7"), "SSx B2");
    assert_eq!(name_to_title(""), "");
    assert_eq!(name_to_title("a-b"), "A-b");
}

#[test]
fn files_are_listed_or_a_placeholder_is_given() {
    let files = names(&["src/a.rs", "src/b.rs"]);
    assert_eq!(format_context_files(Some(&files)), "  - src/a.rs\n  - src/b.rs");
    assert_eq!(format_context_files(Some(&vec![])), "  # - src/example.rs");
    assert_eq!(format_context_files(None), "  # - src/example.rs");
    assert_eq!(format_target_files(Some(&files)), "  - src/a.rs\n  - src/b.rs");
    assert_eq!(format_target_files(None), "  - src/main.rs");
}

#[test]
fn job_files_start_from_the_template_of_their_kind() {
    let replace = generate_template(JobTemplate::Replace, "auth_001_login", None, "src/", None, None);
    assert!(replace.starts_with(
        "---\ncontext_files:\n  # - src/example.rs\noutput_dir: src/\noutput_file: login.rs\n---\n\n# Auth Login\n\n## Requirements\n"
    ));
    assert!(replace.ends_with("```rust\n// Show expected usage\n```\n"));
    let targets = names(&["src/t.rs"]);
    let file = "out.rs".to_string();
    let edit =
        generate_template(JobTemplate::Edit, "fix", Some(&targets), "lib/", Some(&file), None);
    assert!(edit.starts_with(
        "---\nmode: edit\ntarget_files:\n  - src/t.rs\noutput_dir: lib/\noutput_file: out.rs\n---\n\n# Fix\n"
    ));
    let split = generate_template(JobTemplate::Split, "cut", None, "src/m/", None, None);
    assert!(split.starts_with(
        "---\nmode: split\ntarget_file: src/large_file.rs\noutput_dir: src/m/\noutput_file: mod.rs\noutput_files:\n  - src/m/mod.rs\n  - src/m/part1.rs\n  - src/m/part2.rs\n---\n\n# Cut\n"
    ));
    let sequential = generate_template(JobTemplate::Sequential, "multi", None, "src/", None, None);
    assert!(sequential.starts_with(
        "---\noutput_files:\n  - src/file1.rs\n  - src/file2.rs\n  - src/file3.rs\nsequential: true\noutput_dir: src/\noutput_file: multi.rs\n---\n"
    ));
    let odd = "a.rs.rs".to_string();
    let tdd = generate_template(JobTemplate::Tdd, "t", None, "src/", Some(&odd), Some(&targets));
    assert!(tdd.starts_with(
        "---\ncontext_files:\n  - src/t.rs\noutput_dir: src/\noutput_file: a.rs.rs\ntest_file: a_test.rs_test.rs\n---\n\n# T (TDD)\n"
    ));
}

#[test]
fn templates_are_those_of_the_language() {
    let r = get_templates(Language::Rust);
    assert_eq!(r.create_prompt, rust::CREATE_PROMPT);
    assert_eq!(r.tdd_example_job, rust::TDD_EXAMPLE_JOB);
    assert!(r.create_prompt.contains("Rust"));
    assert!(r.verify_prompt.contains("PASS"));
    assert!(r.config.contains("cargo"));
    let t = get_templates(Language::Typescript);
    assert_eq!(t.config, typescript::CONFIG);
    assert!(t.create_prompt.contains("TypeScript"));
    assert!(t.verify_prompt.contains("PASS"));
    assert!(t.config.contains("npm"));
    assert_eq!(rust::templates().manager_instruction, rust::MANAGER_INSTRUCTION);
    assert_eq!(typescript::templates().example_job, typescript::EXAMPLE_JOB);
    assert_eq!(Language::all(), vec![Language::Rust, Language::Typescript]);
}

#[test]
fn configuration_of_a_new_project_names_the_chosen_model() {
    let config = config_for_model(rust::CONFIG, "llama3:8b");
    assert!(config.contains("model = \"llama3:8b\""));
    assert!(!config.contains("qwen-32k:latest"));
    assert_eq!(config_for_model("a\nmodel = \"qwen-32k:latest\"\n", "m"), "a\nmodel = \"m\"\n");
    assert_eq!(config_for_model("nothing", "m"), "nothing");
}

#[test]
fn models_are_read_from_a_listing_and_ordered() {
    let listing = "NAME            ID      SIZE\nworksplit-coder-glm-32k:latest  abc  18 GB\n\nqwen:7b  def  4 GB\n  zed\n";
    assert_eq!(model_names(listing), names(&["worksplit-coder-glm-32k:latest", "qwen:7b", "zed"]));
    let models = names(&["zed", "worksplit-b-32k", "alpha", "worksplit-8k", "worksplit-a-32k", "alpha"]);
    assert_eq!(
        sort_models_by_priority(&models),
        names(&["worksplit-a-32k", "worksplit-b-32k", "alpha", "alpha", "worksplit-8k", "zed"])
    );
    assert!(has_model(&names(&["a:7b", "b"]), "a"));
    assert!(has_model(&names(&["a:7b", "b"]), "b"));
    assert!(!has_model(&names(&["ab", "b:"]), "a"));
    assert_eq!(sort_strings(&names(&["b", "a", "B", "ab", ""])), names(&["", "B", "a", "ab", "b"]));
}

#[test]
fn jobs_are_the_files_with_the_extension_that_are_not_of_the_system() {
    assert_eq!(job_id_of("a.md"), Some("a".to_string()));
    assert_eq!(job_id_of("a.md.md"), Some("a".to_string()));
    assert_eq!(job_id_of(".md"), Some(String::new()));
    assert_eq!(job_id_of("_a.md"), None);
    assert_eq!(job_id_of("a.txt"), None);
    assert_eq!(job_id_of("amd"), None);
    assert!(is_system_file("_x"));
    assert!(!is_system_file("x_"));
    assert!(!is_system_file(""));
    assert_eq!(
        discovered_jobs(&names(&["b.md", "_jobstatus.json", "a.md", "notes.txt", "_s.md"])),
        names(&["a", "b"])
    );
}

#[test]
fn archive_takes_the_passed_jobs_that_are_old_enough() {
    let mut old = JobStatusEntry::new_at("old".to_string(), at(0));
    old.update_status_at(JobStatus::Pass, at(100));
    let mut fresh = JobStatusEntry::new_at("fresh".to_string(), at(0));
    fresh.update_status_at(JobStatus::Pass, at(200));
    let mut failed = JobStatusEntry::new_at("failed".to_string(), at(0));
    failed.set_failed_at("m".to_string(), at(100));
    let entries = vec![&old, &fresh, &failed];
    assert_eq!(archivable(&entries, at(200)), names(&["old"]));
    assert_eq!(archivable(&entries, Timestamp { secs: 200, nanos: 1 }), names(&["old", "fresh"]));
    assert_eq!(cutoff(at(10 * 86_400 + 5), 3), at(7 * 86_400 + 5));
    assert_eq!(cutoff(at(i64::MIN + 5), 1), at(i64::MIN));
    assert!(is_earlier(at(1), at(2)));
    assert!(is_earlier(Timestamp { secs: 1, nanos: 1 }, Timestamp { secs: 1, nanos: 2 }));
    assert!(!is_earlier(at(2), at(2)));
    assert_eq!(days_old(at(0), at(3 * 86_400 - 1)), 2);
    assert_eq!(days_old(at(5), at(1)), 0);
    assert_eq!(reset_candidates(&entries, "fail"), names(&["failed"]));
    assert_eq!(reset_candidates(&entries, "partial"), Vec::<String>::new());
    assert_eq!(reset_candidates(&entries, "pass"), Vec::<String>::new());
}

#[test]
fn answer_arrives_in_pieces_that_hold_lines() {
    let mut buffer = LineBuffer::new();
    assert_eq!(buffer.push_chunk("{\"a\":"), Vec::<String>::new());
    assert_eq!(buffer.push_chunk("1}\n\n{\"b\":2}\n{\"c\""), names(&["{\"a\":1}", "{\"b\":2}"]));
    assert_eq!(buffer.pending, "{\"c\"");
    assert_eq!(buffer.push_chunk(":3}\n"), names(&["{\"c\":3}"]));
    assert_eq!(buffer.pending, "");
    let mut answer = Answer::new();
    let err = answer.reject(&"x".repeat(300), "bad").unwrap_err();
    assert_eq!(err, OllamaError::ParseError(format!("Failed to parse: {} - bad", "x".repeat(200))));
    answer.accept("Hel", false);
    answer.accept("lo", true);
    answer.accept("!", false);
    assert_eq!(answer.text, "Hello!");
    assert_eq!(answer.messages, 3);
    assert!(answer.done);
    assert!(answer.reject("junk", "bad").is_ok());
}

#[test]
fn token_budget_is_checked_against_the_thresholds() {
    let manager = JobsManager::new("/p".to_string(), Config::default().limits);
    assert_eq!(manager.jobs_dir(), "/p/jobs");
    assert_eq!(JobsManager::estimate_tokens("\u{e9}\u{e9}\u{e9}\u{e9}x"), 2);
    let files = vec![("a".to_string(), "x".repeat(40)), ("b".to_string(), "y".repeat(7))];
    let (total, warning, error) = manager.check_token_budget("12345678", &files, "abcd", 1510);
    assert_eq!(total, 2 + 10 + 1 + 1 + 1200);
    assert!(warning);
    assert!(!error);
    assert_eq!(manager.check_token_budget("", &[], "", 1500), (1200, false, false));
    assert_eq!(manager.check_token_budget("", &[], "", 1499), (1200, true, false));
    assert_eq!(manager.check_token_budget("", &[], "", 1333), (1200, true, true));
    assert!(manager.check_context_size("a.rs", 1000).is_ok());
    assert_eq!(
        manager.check_context_size("a.rs", 1001).unwrap_err().message(),
        "Context file too large: a.rs has 1001 lines (max: 1000)"
    );
}

#[test]
fn cache_keeps_files_with_the_time_of_their_last_change() {
    let mut cache = FileCache::new();
    cache.store("a".to_string(), "one\ntwo\n".to_string(), at(1));
    cache.store("b".to_string(), "\u{e9}".to_string(), at(2));
    assert_eq!(cache.get("a").unwrap().line_count, 2);
    assert!(cache.get_fresh("a", at(1)).is_some());
    assert!(cache.get_fresh("a", at(2)).is_none());
    assert!(cache.get("c").is_none());
    let stats = cache.stats();
    assert_eq!((stats.entry_count, stats.total_bytes, stats.total_lines), (2, 10, 3));
    cache.store("a".to_string(), "new".to_string(), at(3));
    assert_eq!(cache.get("a").unwrap().content, "new");
    assert_eq!(cache.stats().entry_count, 2);
    cache.invalidate("a");
    cache.invalidate("zz");
    assert!(cache.get("a").is_none());
    assert_eq!(cache.stats().entry_count, 1);
    cache.clear();
    assert_eq!(cache.stats().entry_count, 0);
    let mut manager = JobsManager::new("p".to_string(), Config::default().limits);
    manager.cache.store("k".to_string(), "v".to_string(), at(1));
    assert_eq!(manager.cache_stats().entry_count, 1);
    manager.invalidate_cache("k");
    assert_eq!(manager.cache_stats().entry_count, 0);
    manager.cache.store("k".to_string(), "v".to_string(), at(1));
    manager.clear_cache();
    assert_eq!(manager.cache_stats().entry_count, 0);
}

#[test]
fn paths_are_joined_as_the_standard_library_joins_them() {
    for (dir, name) in [("src/", "a.rs"), ("src", "a.rs"), ("", "a.rs"), ("src", "/abs"), ("a", ""), ("/", "x")] {
        let expected = std::path::Path::new(dir).join(name);
        assert_eq!(join_path(dir, name), expected.to_str().unwrap());
    }
}

#[test]
fn every_error_says_what_it_is() {
    let cases: Vec<(WorkSplitError, &str)> = vec![
        (
            WorkSplitError::Config(ConfigError::ReadError("c.toml".into(), "gone".into())),
            "Configuration error: Failed to read config file c.toml: gone",
        ),
        (
            WorkSplitError::Config(ConfigError::ParseError("c.toml".into(), "bad".into())),
            "Configuration error: Failed to parse config file c.toml: bad",
        ),
        (
            WorkSplitError::JobValidation(JobValidationError::TooManyContextFiles {
                count: 3,
                max: 2,
            }),
            "Job validation error: Too many context files: 3 (max: 2)",
        ),
        (
            WorkSplitError::JobParsing(JobParseError::ReadError("j.md".into(), "gone".into())),
            "Job parsing error: Failed to read job file j.md: gone",
        ),
        (
            WorkSplitError::JobParsing(JobParseError::FrontmatterError("j.md".into(), "x".into())),
            "Job parsing error: Failed to parse frontmatter in j.md: x",
        ),
        (
            WorkSplitError::JobParsing(JobParseError::MissingField("j.md".into(), "f".into())),
            "Job parsing error: Missing required field in j.md: f",
        ),
        (
            WorkSplitError::JobParsing(JobParseError::YamlError("j.md".into(), "y".into())),
            "Job parsing error: Invalid YAML in j.md: y",
        ),
        (
            WorkSplitError::Status(StatusError::ReadError("s".into(), "r".into())),
            "Status file error: Failed to read status file s: r",
        ),
        (
            WorkSplitError::Status(StatusError::WriteError("s".into(), "w".into())),
            "Status file error: Failed to write status file s: w",
        ),
        (
            WorkSplitError::Status(StatusError::ParseError("s".into(), "p".into())),
            "Status file error: Failed to parse status file s: p",
        ),
        (
            WorkSplitError::Ollama(OllamaError::ConnectionRefused("no".into())),
            "Ollama error: Connection refused: no",
        ),
        (
            WorkSplitError::Ollama(OllamaError::HttpError { status: 503, message: "busy".into() }),
            "Ollama error: HTTP error: 503 - busy",
        ),
        (
            WorkSplitError::Ollama(OllamaError::ParseError("p".into())),
            "Ollama error: Failed to parse response: p",
        ),
        (
            WorkSplitError::Ollama(OllamaError::RequestFailed("r".into())),
            "Ollama error: Request failed: r",
        ),
        (
            WorkSplitError::Ollama(OllamaError::StreamError("s".into())),
            "Ollama error: Stream error: s",
        ),
        (
            WorkSplitError::Ollama(OllamaError::ThinkingTimeout {
                duration_secs: 90,
                thinking_tokens: 1200,
            }),
            "Ollama error: SYSTEM PROMPT ERROR: Model stuck in thinking loop for 90s (1200 thinking tokens, 0 output). Adjust system prompt to prevent over-analysis.",
        ),
        (
            WorkSplitError::BuildFailed { command: "make".into(), output: "boom".into() },
            "Build failed for make:\nboom",
        ),
        (
            WorkSplitError::FileTooLarge {
                path: "a.rs".into(),
                lines: 2000,
                limit: 900,
                suggestion: "split it".into(),
            },
            "File too large: a.rs has 2000 lines (max: 900)\n\nManager action required:\nsplit it",
        ),
        (
            WorkSplitError::CyclicDependency,
            "Cyclic dependency detected in job files. Check depends_on for cycles.",
        ),
        (WorkSplitError::Io("gone".into()), "IO error: gone"),
        (WorkSplitError::JobsFolderNotFound("p/jobs".into()), "Jobs folder not found at p/jobs"),
        (WorkSplitError::ContextFileNotFound("c.rs".into()), "Context file not found: c.rs"),
        (
            WorkSplitError::OutputTooLarge { lines: 1000, max: 900 },
            "Output exceeded line limit: 1000 lines (max: 900)",
        ),
        (WorkSplitError::EditFailed("none".into()), "Edit failed: none"),
        (
            WorkSplitError::ProtectedPathViolation("jobs/_x".into()),
            "Cannot write to protected path: jobs/_x",
        ),
        (WorkSplitError::JobAlreadyExists("j".into()), "Job already exists: j"),
    ];
    for (error, text) in cases {
        assert_eq!(error.message(), text);
        assert_eq!(error.display_with_suggestions(), format!("Error: {}", text));
    }
    assert_eq!(
        JobValidationError::ContextFileTooLarge { path: "c".into(), lines: 10, max: 5 }.message(),
        "Context file too large: c has 10 lines (max: 5)"
    );
    assert_eq!(
        JobValidationError::ContextFileNotFound("c".into()).message(),
        "Context file not found: c"
    );
    assert_eq!(
        JobValidationError::UpdateFixturesMissingNewField.message(),
        "update_fixtures mode requires new_field"
    );
    assert_eq!(
        JobValidationError::ReplacePatternMissingTargetFiles.message(),
        "replace_pattern mode requires target_files"
    );
}

#[test]
fn suggestions_come_with_the_likeliest_first() {
    let error = WorkSplitError::edit_failed_with_context(
        "whitespace differs".to_string(),
        "src/a.rs",
        "one\ntwo\nthree",
        11,
        false,
        vec![("src/a.rs".to_string(), 4, 69), ("src/b.rs".to_string(), 7, 70)],
    );
    assert_eq!(error.message(), "Edit failed: whitespace differs");
    assert_eq!(
        error.display_with_suggestions(),
        "Error: Edit failed: whitespace differs\n\nSuggestions:\n  1. Check whitespace: src/a.rs may use different indentation (spaces vs tabs, indent level)\n  2. Consider replace mode: this job has 11 edits, replace mode is safer for 10+ edits\n  3. Possible match at src/b.rs:7 (70% similar)\n"
    );
    let plain = WorkSplitError::edit_failed_with_context(
        "m".to_string(),
        "f",
        "a\nb\nc",
        10,
        false,
        vec![],
    );
    assert_eq!(plain.display_with_suggestions(), "Error: Edit failed: m\n");
    let short = WorkSplitError::edit_failed_with_context("m".to_string(), "f", "a", 1, true, vec![]);
    match short {
        WorkSplitError::EditFailedWithSuggestions { suggestions, .. } => {
            let priorities: Vec<u8> = suggestions.iter().map(|s| s.priority).collect();
            assert_eq!(priorities, vec![1, 1]);
            assert!(suggestions[1].message.starts_with("Include more context"));
        }
        other => panic!("not a failed edit: {:?}", other),
    }
}

#[test]
fn suggestions_after_failed_edits_hint_at_lines() {
    let failed = vec![
        FailedEdit {
            file_path: "a.rs".to_string(),
            find_preview: "x".repeat(25),
            reason: "only whitespace differs".to_string(),
            suggested_line: Some(12),
        },
        FailedEdit {
            file_path: "b.rs".to_string(),
            find_preview: "short".to_string(),
            reason: String::new(),
            suggested_line: None,
        },
    ];
    assert_eq!(
        generate_suggestions(&failed, 11),
        vec![
            "Check whitespace: file may use different indentation".to_string(),
            "Consider replace mode: this job has 11+ edits, replace is safer".to_string(),
            format!("For '{}...': check line 12 in a.rs", "x".repeat(20)),
        ]
    );
    assert!(generate_suggestions(&failed[1..], 10).is_empty());
}

#[test]
fn plan_tells_what_edits_would_do() {
    let parsed: ParsedEdits = parse_edit_instructions(
        "FILE: b.rs\nFIND:\nexact\nREPLACE:\nr1\nEND\nFILE: a.rs\nFIND:\nlet  x\nREPLACE:\nr2\nEND\nFIND:\nabsent\nREPLACE:\nr3\nEND\nFILE: gone.rs\nFIND:\nq\nREPLACE:\nr\nEND\n",
    );
    let files = vec![
        ("a.rs".to_string(), "fn a() {\n  let x\n}".to_string()),
        ("b.rs".to_string(), "an exact text".to_string()),
    ];
    let plan = plan_edits("job", &parsed, &files);
    assert_eq!(plan.job_id, "job");
    assert_eq!(plan.planned_edits.len(), 2);
    assert_eq!(plan.planned_edits[0].status, PlannedEditStatus::WillApply);
    assert_eq!(plan.planned_edits[0].line_number, None);
    assert_eq!(plan.planned_edits[1].status, PlannedEditStatus::WillApplyFuzzy);
    assert_eq!(plan.planned_edits[1].line_number, Some(9));
    assert_eq!(plan.planned_edits[1].replace_preview, "r2");
    assert_eq!(plan.warnings, vec!["Fuzzy match for a.rs at approximate position 9".to_string()]);
    assert_eq!(
        plan.render(),
        "[DRY RUN] Job: job\nPlanned edits: 2\n\n  File: a.rs\n    ~ let  x (line 9)...\n\n  File: b.rs\n    \u{2713} exact...\n\nWarnings:\n  - Fuzzy match for a.rs at approximate position 9\n"
    );
}

#[test]
fn summary_counts_outcomes_and_tells_when_to_stop() {
    let mut summary = RunSummary::new();
    let error = WorkSplitError::Io("gone".to_string());
    assert!(!summary.record_error("a", &error, false));
    assert!(summary.record_error("b", &error, true));
    assert_eq!((summary.processed, summary.passed, summary.failed), (2, 0, 2));
    assert_eq!(summary.results[1].job_id, "b");
    assert_eq!(summary.results[1].error, Some("IO error: gone".to_string()));
    summary.close_stopped(5);
    assert_eq!(summary.skipped, 3);
    summary.close_stopped(1);
    assert_eq!(summary.skipped, 0);
}

#[test]
fn options_and_checks_start_empty() {
    let options = RunOptions::default();
    assert!(options.job_id.is_none() && !options.batch && options.max_concurrent == 0);
    let mut result = ValidationResult::new();
    result.add_warning("w".to_string());
    assert!(result.valid);
    result.add_error("e".to_string());
    assert!(!result.valid);
    assert_eq!((result.errors.len(), result.warnings.len()), (1, 1));
    assert_eq!(JobStatus::PendingVerification.label(), "PENDING VERIFY");
    assert_eq!(JobStatus::Created.label(), "CREATED");
}

#[test]
fn texts_pass_through_the_conversions_unchanged() {
    for text in ["", "plain", "\u{e9}\u{1F600}\n\t\"", "a\u{0}b"] {
        assert_eq!(string_of(&chars_of(text)), text);
        assert_eq!(chars_of(text), text.chars().collect::<Vec<char>>());
    }
}

#[test]
fn fixing_goes_on_until_a_check_passes_or_the_fixes_are_used_up() {
    let checked = |success: bool, output: &str| FixEvent::Checked {
        success,
        output: output.to_string(),
    };
    let (state, request) = fix_step(2, FixState::new(), checked(true, " \n"));
    assert_eq!((state.phase, request), (FixPhase::Done, FixRequest::Finish(FixOutcome::Clean)));
    let (state, request) = fix_step(2, FixState::new(), checked(true, "warning"));
    assert_eq!((state.phase, request), (FixPhase::Fixing(1), FixRequest::Fix(1)));
    assert_eq!(state.errors, "warning");
    let (state, request) = fix_step(2, state, FixEvent::Tried(false));
    assert_eq!((state.phase, request), (FixPhase::Fixing(2), FixRequest::Fix(2)));
    let (state, request) = fix_step(2, state, FixEvent::Tried(true));
    assert_eq!((state.phase, request), (FixPhase::Checking(2), FixRequest::Check));
    let (state, request) = fix_step(2, state, checked(false, "still"));
    assert_eq!((state.phase, request), (FixPhase::Done, FixRequest::Finish(FixOutcome::GaveUp)));
    assert_eq!(state.errors, "still");
    let (state, _) = fix_step(1, FixState::new(), checked(false, ""));
    let (state, _) = fix_step(1, state, FixEvent::Tried(true));
    let (state, request) = fix_step(1, state, checked(true, "noise"));
    assert_eq!((state.phase, request), (FixPhase::Done, FixRequest::Finish(FixOutcome::Fixed)));
    let (_, request) = fix_step(0, FixState::new(), checked(false, "e"));
    assert_eq!(request, FixRequest::Finish(FixOutcome::GaveUp));
    let (_, request) = fix_step(3, FixState::new(), FixEvent::Tried(true));
    assert_eq!(request, FixRequest::Finish(FixOutcome::GaveUp));
    assert_eq!(FixSummary::new(), FixSummary { fixed: 0, failed: 0, skipped: 0 });
    assert_eq!(
        assemble_file_fix_prompt(ErrorType::Lint, " e1\n", "src/a.ts", "let a;"),
        "## Linter Errors\n\n```\ne1\n```\n\n## Source File: src/a.ts\n\n```\nlet a;\n```\n\nFix the linter errors. Focus on unused variables, missing type annotations, and style issues.\n\nOutput the complete fixed file using ~~~worksplit:src/a.ts delimiters."
    );
    assert_eq!(ErrorType::Test.prompt_header(), "## Test Failures");
    assert_eq!(
        ErrorType::Test.fix_instructions(),
        "Fix the test failures. Focus on assertion logic, test setup, and expected values."
    );
}

#[test]
fn preview_shows_the_first_lines_and_counts_the_rest() {
    assert_eq!(head_lines("a\nb\nc\n", 2), (names(&["a", "b"]), 1));
    assert_eq!(head_lines("a\nb", 2), (names(&["a", "b"]), 0));
    assert_eq!(head_lines("", 2), (vec![], 0));
    assert_eq!(head_lines("a", 0), (vec![], 1));
}

#[test]
fn prompts_for_one_file_are_those_for_several_with_one_file() {
    let context = vec![("c.rs".to_string(), "ctx\n".to_string())];
    let one = vec![("o.rs".to_string(), "out".to_string())];
    assert_eq!(
        assemble_verification_prompt("S", &context, "out", "o.rs", "I"),
        assemble_verification_prompt_multi("S", &context, &one, "I")
    );
    assert_eq!(
        assemble_verification_prompt("S", &[], "out", "o.rs", "I"),
        "[SYSTEM]\nS\n\n[GENERATED OUTPUT]\n### File: o.rs\n```\nout\n```\n\n[ORIGINAL INSTRUCTIONS]\nI\n"
    );
    assert_eq!(
        assemble_retry_prompt("S", &context, "I", "o.rs", "out", "bad"),
        assemble_retry_prompt_multi("S", &context, "I", &one, "bad")
    );
    assert_eq!(
        assemble_retry_prompt_multi("S", &[], "I", &[], "bad"),
        "[SYSTEM]\nS\n\n[PREVIOUS ATTEMPT]\n[VERIFICATION FEEDBACK]\nThe previous attempt failed verification with the following feedback:\nbad\n\n[INSTRUCTIONS]\nI\n\nOutput files:\n\nPlease fix the issues mentioned in the verification feedback and generate improved code.\n"
    );
    assert_eq!(
        assemble_split_prompt("S", (&"big.rs".to_string(), "B\n"), &context, "I", &names(&["a.rs"])),
        "[SYSTEM]\nS\n\n[TARGET FILE TO SPLIT]\n### File: big.rs (to be split into modules)\n```\nB\n```\n\n[ADDITIONAL CONTEXT]\n### File: c.rs\n```\nctx\n```\n\n[INSTRUCTIONS]\nI\n\n[OUTPUT FILES]\nGenerate the following files:\n  - a.rs\n\nUse the ~~~worksplit:path/to/file.rs delimiter for each output file.\nEnsure ALL functionality from the target file is preserved across the output files.\n"
    );
}

#[test]
fn edit_prompt_numbers_the_first_line_and_every_tenth() {
    let body: String = (1..=11).map(|i| format!("l{}\n", i)).collect();
    let prompt = assemble_edit_prompt("S", &[("t.rs".to_string(), body)], &[], "I");
    assert!(prompt.starts_with("[SYSTEM]\nS\n\n[EDIT MODE]\nYou are making surgical edits"));
    assert!(prompt.contains(
        "[TARGET FILES]\nThese are the files you will be editing (line numbers shown every 10 lines):\n\n### File: t.rs (11 lines)\n```\n[Line    1] l1\n            l2\n"
    ));
    assert!(prompt.contains("            l9\n[Line   10] l10\n            l11\n```\n\n[INSTRUCTIONS]\nI\n\n"));
    assert!(!prompt.contains("[CONTEXT]"));
}

#[test]
fn partial_state_tells_whether_an_edit_failed() {
    let mut state = PartialEditState::default();
    assert!(!state.has_failures());
    state.add_successful_edit("f", "p");
    assert!(!state.has_failures());
    state.add_failed_edit("f", "p", "why", None);
    assert_eq!(state.failed_edits[0].reason, "why");
    assert_eq!(state.failed_edits[0].suggested_line, None);
    assert!(state.has_failures());
}
