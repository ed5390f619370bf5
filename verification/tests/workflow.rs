use worksplit::engine::{
    estimate_call, step, Action, Event, JobPlan, Phase, Prompts, Request, RunSettings, RunState,
    StatusUpdate,
};
use worksplit::error::{OllamaError, WorkSplitError};
use worksplit::job::{Job, JobMetadata, OutputMode};
use worksplit::parser::prompts::{
    assemble_creation_prompt, assemble_edit_prompt, assemble_retry_prompt_multi,
    assemble_sequential_creation_prompt, assemble_sequential_split_prompt, assemble_test_prompt,
    assemble_verification_prompt_multi,
};
use worksplit::prompts::{
    SYSTEM_PROMPT_CREATE, SYSTEM_PROMPT_EDIT, SYSTEM_PROMPT_RETRY, SYSTEM_PROMPT_TEST,
    SYSTEM_PROMPT_VERIFY,
};
use worksplit::status::JobStatus;

fn metadata() -> JobMetadata {
    JobMetadata {
        context_files: vec![],
        output_dir: "src/".to_string(),
        output_file: "a.rs".to_string(),
        test_file: None,
        output_files: None,
        sequential: None,
        mode: OutputMode::Replace,
        target_files: None,
        target_file: None,
        verify: true,
        struct_name: None,
        new_field: None,
    }
}

fn plan_of(metadata: JobMetadata) -> JobPlan {
    JobPlan {
        job: Job::new("j".to_string(), metadata, "Do it".to_string(), "jobs/j.md".to_string()),
        prompts: Prompts {
            create: "CREATE".to_string(),
            verify: "VERIFY".to_string(),
            test: None,
            edit: "EDIT".to_string(),
            verify_edit: "VERIFY EDIT".to_string(),
            split: None,
            fix: None,
        },
        settings: RunSettings {
            stream_output: true,
            verify_build: false,
            build_command: None,
            auto_fix: false,
            auto_fix_attempts: 2,
            jobs_dir: "jobs".to_string(),
        },
        context_files: vec![("ctx.rs".to_string(), "ctx".to_string())],
    }
}

fn pairs(v: &[(&str, &str)]) -> Vec<(String, String)> {
    v.iter().map(|(a, b)| (a.to_string(), b.to_string())).collect()
}

fn asked(action: &Action) -> (&str, &str, bool) {
    match &action.request {
        Request::Generate { system, prompt, stream } => (system, prompt, *stream),
        other => panic!("no call of the generator: {:?}", other),
    }
}

fn statuses(action: &Action) -> Vec<String> {
    action
        .updates
        .iter()
        .map(|u| match u {
            StatusUpdate::Status(s) => format!("{:?}", s),
            StatusUpdate::Fail(m) => format!("Fail({})", m),
            StatusUpdate::Partial(p) => {
                format!("Partial({},{})", p.successful_edits.len(), p.failed_edits.len())
            }
            StatusUpdate::MarkRan => "MarkRan".to_string(),
        })
        .collect()
}

#[test]
fn replace_job_is_generated_verified_and_passes() {
    let plan = plan_of(metadata());
    let (state, action) = step(&plan, RunState::new(), Event::Begin);
    assert_eq!(state.phase, Phase::Replace);
    assert_eq!(statuses(&action), vec!["PendingWork"]);
    assert!(action.writes.is_empty());
    let expected = assemble_creation_prompt("CREATE", &plan.context_files, "Do it", "src/a.rs");
    assert_eq!(asked(&action), (SYSTEM_PROMPT_CREATE, expected.as_str(), true));

    let answer = "~~~worksplit:src/x.rs\nfn x() {}\n~~~worksplit\n~~~worksplit\nfn a() {}\nfn b() {}\n~~~worksplit";
    let (state, action) = step(&plan, state, Event::Generated(answer.to_string()));
    let files = pairs(&[("src/x.rs", "fn x() {}"), ("src/a.rs", "fn a() {}\nfn b() {}")]);
    assert_eq!(state.phase, Phase::Verdict);
    assert_eq!(state.generated, files);
    assert_eq!(action.writes, files);
    assert_eq!(statuses(&action), vec!["PendingVerification"]);
    let expected = assemble_verification_prompt_multi("VERIFY", &plan.context_files, &files, "Do it");
    assert_eq!(asked(&action), (SYSTEM_PROMPT_VERIFY, expected.as_str(), false));

    let (state, action) = step(&plan, state, Event::Generated("PASS".to_string()));
    assert_eq!(state.phase, Phase::Done);
    assert_eq!(statuses(&action), vec!["Pass", "MarkRan"]);
    assert!(action.writes.is_empty());
    match action.request {
        Request::Finish(Ok(result)) => {
            assert_eq!(result.job_id, "j");
            assert_eq!(result.status, JobStatus::Pass);
            assert_eq!(result.error, None);
            assert_eq!(result.output_paths, vec!["src/x.rs".to_string(), "src/a.rs".to_string()]);
            assert_eq!(result.output_lines, Some(3));
            assert_eq!(result.output_path(), Some(&"src/x.rs".to_string()));
            assert!(!result.retry_attempted);
            assert_eq!(result.line(), "  j [PASS] (3 lines)");
        }
        other => panic!("not finished with a result: {:?}", other),
    }
}

#[test]
fn failed_verification_is_retried_once() {
    let plan = plan_of(metadata());
    let (state, _) = step(&plan, RunState::new(), Event::Begin);
    let answer = "~~~worksplit:src/a.rs\nfn a() {}\n~~~worksplit";
    let (state, _) = step(&plan, state, Event::Generated(answer.to_string()));
    let (state, action) = step(&plan, state, Event::Generated("FAIL: bad".to_string()));
    assert_eq!(state.phase, Phase::Retry);
    assert!(state.retry_attempted);
    assert!(action.updates.is_empty());
    let first = pairs(&[("src/a.rs", "fn a() {}")]);
    let expected = assemble_retry_prompt_multi("CREATE", &plan.context_files, "Do it", &first, "bad");
    assert_eq!(asked(&action), (SYSTEM_PROMPT_RETRY, expected.as_str(), true));

    let again = "~~~worksplit:src/a.rs\nfn a2() {}\n~~~worksplit\n~~~worksplit\nlost\n~~~worksplit";
    let (state, action) = step(&plan, state, Event::Generated(again.to_string()));
    let second = pairs(&[("src/a.rs", "fn a2() {}")]);
    assert_eq!(state.phase, Phase::SecondVerdict);
    assert_eq!(action.writes, second);
    assert_eq!(state.generated, second);
    let expected = assemble_verification_prompt_multi("VERIFY", &plan.context_files, &second, "Do it");
    assert_eq!(asked(&action), (SYSTEM_PROMPT_VERIFY, expected.as_str(), false));

    let (state, action) = step(&plan, state, Event::Generated("fail_soft: worse".to_string()));
    assert_eq!(state.phase, Phase::Done);
    assert_eq!(statuses(&action), vec!["Fail(worse)", "MarkRan"]);
    match action.request {
        Request::Finish(Ok(result)) => {
            assert_eq!(result.status, JobStatus::Fail);
            assert_eq!(result.error, Some("worse".to_string()));
            assert!(result.retry_attempted);
            assert_eq!(result.line(), "  j [FAIL] (1 lines): worse");
        }
        other => panic!("not finished with a result: {:?}", other),
    }
}

#[test]
fn job_without_verification_passes_when_generated() {
    let mut m = metadata();
    m.verify = false;
    let plan = plan_of(m);
    let (state, _) = step(&plan, RunState::new(), Event::Begin);
    let (state, action) = step(&plan, state, Event::Generated("fn a() {}".to_string()));
    assert_eq!(state.phase, Phase::Done);
    assert_eq!(action.writes, pairs(&[("src/a.rs", "fn a() {}")]));
    assert_eq!(statuses(&action), vec!["Pass", "MarkRan"]);
    assert!(matches!(action.request, Request::Finish(Ok(_))));
}

#[test]
fn failed_call_fails_the_job_and_marks_it_as_run() {
    let plan = plan_of(metadata());
    let (state, _) = step(&plan, RunState::new(), Event::Begin);
    let (state, action) = step(&plan, state, Event::GenerationFailed(OllamaError::Timeout(5)));
    assert_eq!(state.phase, Phase::Done);
    assert_eq!(
        statuses(&action),
        vec!["Fail(Ollama error: Request timeout after 5 seconds)", "MarkRan"]
    );
    match action.request {
        Request::Finish(Err(e)) => assert_eq!(e, WorkSplitError::Ollama(OllamaError::Timeout(5))),
        other => panic!("not finished with an error: {:?}", other),
    }
}

#[test]
fn failed_io_and_unexpected_events_fail_the_job() {
    let plan = plan_of(metadata());
    let (state, _) = step(&plan, RunState::new(), Event::Begin);
    let (_, action) = step(&plan, state, Event::IoFailed("disk full".to_string()));
    assert_eq!(statuses(&action), vec!["Fail(IO error: disk full)", "MarkRan"]);
    match action.request {
        Request::Finish(Err(e)) => assert_eq!(e, WorkSplitError::Io("disk full".to_string())),
        other => panic!("not finished with an error: {:?}", other),
    }
    let (state, action) = step(&plan, RunState::new(), Event::Generated("x".to_string()));
    assert_eq!(state.phase, Phase::Done);
    assert_eq!(statuses(&action), vec!["Fail(IO error: unexpected event)", "MarkRan"]);
}

#[test]
fn call_over_the_token_budget_is_refused() {
    let mut plan = plan_of(metadata());
    plan.job.instructions = "x".repeat(4 * 27_600);
    assert_eq!(estimate_call("CREATE", &plan.context_files, &plan.job.instructions), 28_801);
    let (state, action) = step(&plan, RunState::new(), Event::Begin);
    assert_eq!(state.phase, Phase::Done);
    assert_eq!(
        statuses(&action),
        vec!["Fail(Token budget exceeded: estimated 28801 tokens (max: 32000))", "MarkRan"]
    );
    match action.request {
        Request::Finish(Err(e)) => {
            assert_eq!(e, WorkSplitError::TokenBudgetExceeded { estimated: 28_801, max: 32_000 });
            assert_eq!(
                e.message(),
                "Token budget exceeded: estimated 28801 tokens (max: 32000)"
            );
        }
        other => panic!("not finished with an error: {:?}", other),
    }
    plan.job.instructions = "x".repeat(4 * 27_599 + 3);
    let (state, _) = step(&plan, RunState::new(), Event::Begin);
    assert_eq!(state.phase, Phase::Replace);
}

#[test]
fn test_is_generated_first_where_a_test_file_is_declared() {
    let mut m = metadata();
    m.test_file = Some("a_test.rs".to_string());
    let mut plan = plan_of(m);
    let (state, action) = step(&plan, RunState::new(), Event::Begin);
    assert_eq!(state.phase, Phase::Done);
    assert_eq!(
        statuses(&action),
        vec!["PendingWork", "Fail(System prompt not found: jobs/_systemprompt_test.md)", "MarkRan"]
    );
    match action.request {
        Request::Finish(Err(e)) => assert_eq!(
            e,
            WorkSplitError::SystemPromptNotFound("jobs/_systemprompt_test.md".to_string())
        ),
        other => panic!("not finished with an error: {:?}", other),
    }

    plan.prompts.test = Some("TEST".to_string());
    let (state, action) = step(&plan, RunState::new(), Event::Begin);
    assert_eq!(state.phase, Phase::Test);
    assert_eq!(state.test_path, Some("src/a_test.rs".to_string()));
    assert_eq!(statuses(&action), vec!["PendingTest"]);
    let expected = assemble_test_prompt("TEST", &plan.context_files, "Do it", "src/a_test.rs");
    assert_eq!(asked(&action), (SYSTEM_PROMPT_TEST, expected.as_str(), true));

    let (state, action) = step(&plan, state, Event::Generated("```\nt1\nt2\n```".to_string()));
    assert_eq!(state.phase, Phase::Replace);
    assert_eq!(state.test_lines, Some(2));
    assert_eq!(action.writes, pairs(&[("src/a_test.rs", "t1\nt2")]));
    assert_eq!(statuses(&action), vec!["PendingWork"]);
    assert_eq!(asked(&action).0, SYSTEM_PROMPT_CREATE);
}

#[test]
fn edit_job_reads_its_targets_and_ends_partial_where_an_edit_fails() {
    let mut m = metadata();
    m.mode = OutputMode::Edit;
    m.target_files = Some(vec!["src/t.rs".to_string()]);
    let plan = plan_of(m);
    let (state, action) = step(&plan, RunState::new(), Event::Begin);
    assert_eq!(state.phase, Phase::Targets);
    assert_eq!(statuses(&action), vec!["PendingWork"]);
    match &action.request {
        Request::ReadFiles { paths, required } => {
            assert_eq!(paths, &vec!["src/t.rs".to_string()]);
            assert!(*required);
        }
        other => panic!("no files asked for: {:?}", other),
    }
    let targets = pairs(&[("src/t.rs", "old\nkeep\n")]);
    let (state, action) = step(&plan, state, Event::FilesRead(targets.clone()));
    assert_eq!(state.phase, Phase::Edit);
    let expected = assemble_edit_prompt("EDIT", &targets, &plan.context_files, "Do it");
    assert_eq!(asked(&action), (SYSTEM_PROMPT_EDIT, expected.as_str(), true));

    let edits = "FILE: src/t.rs\nFIND:\nold\nREPLACE:\nnew\nEND\nFIND:\nmissing\nREPLACE:\nx\nEND\n";
    let (state, action) = step(&plan, state, Event::Generated(edits.to_string()));
    assert_eq!(state.phase, Phase::Done);
    assert_eq!(action.writes, pairs(&[("src/t.rs", "new\nkeep\n")]));
    assert_eq!(statuses(&action), vec!["Partial(1,1)", "MarkRan"]);
    match action.request {
        Request::Finish(Ok(result)) => assert_eq!(result.status, JobStatus::Partial),
        other => panic!("not finished with a result: {:?}", other),
    }
}

#[test]
fn edit_job_goes_on_to_verification_where_all_edits_apply() {
    let mut m = metadata();
    m.mode = OutputMode::Edit;
    let plan = plan_of(m);
    let (state, action) = step(&plan, RunState::new(), Event::Begin);
    assert!(
        matches!(&action.request, Request::ReadFiles { paths, .. } if paths == &vec!["src/a.rs".to_string()])
    );
    let (state, _) = step(&plan, state, Event::FilesRead(pairs(&[("src/a.rs", "old")])));
    let edits = "FILE: src/a.rs\nFIND:\nold\nREPLACE:\nnew\nEND\n";
    let (state, action) = step(&plan, state, Event::Generated(edits.to_string()));
    assert_eq!(state.phase, Phase::Verdict);
    assert_eq!(action.writes, pairs(&[("src/a.rs", "new")]));
    let expected = assemble_verification_prompt_multi(
        "VERIFY EDIT",
        &plan.context_files,
        &pairs(&[("src/a.rs", "new")]),
        "Do it",
    );
    assert_eq!(asked(&action), (SYSTEM_PROMPT_VERIFY, expected.as_str(), false));

    let (state, _) = step(&plan, RunState::new(), Event::Begin);
    let (state, _) = step(&plan, state, Event::FilesRead(pairs(&[("src/a.rs", "other")])));
    let (state, action) = step(&plan, state, Event::Generated(edits.to_string()));
    assert_eq!(state.phase, Phase::Done);
    assert!(action.writes.is_empty());
    assert_eq!(
        statuses(&action),
        vec!["Fail(Edit failed: Edit mode produced no edits)", "MarkRan"]
    );
    assert!(matches!(action.request, Request::Finish(Err(WorkSplitError::EditFailed(_)))));
}

#[test]
fn files_are_generated_one_by_one_with_what_came_before() {
    let mut m = metadata();
    m.sequential = Some(true);
    m.output_files = Some(vec!["src/one.rs".to_string(), "src/two.rs".to_string()]);
    let plan = plan_of(m);
    let (state, action) = step(&plan, RunState::new(), Event::Begin);
    assert_eq!(state.phase, Phase::Sequential(0));
    let expected = assemble_sequential_creation_prompt(
        "CREATE",
        &plan.context_files,
        &[],
        "Do it",
        "src/one.rs",
        &["src/two.rs".to_string()],
    );
    assert_eq!(asked(&action), (SYSTEM_PROMPT_CREATE, expected.as_str(), true));
    let (state, action) = step(&plan, state, Event::Generated("```\nfn one() {}\n```".to_string()));
    assert_eq!(state.phase, Phase::Sequential(1));
    assert_eq!(action.writes, pairs(&[("src/one.rs", "fn one() {}")]));
    let expected = assemble_sequential_creation_prompt(
        "CREATE",
        &plan.context_files,
        &pairs(&[("src/one.rs", "fn one() {}")]),
        "Do it",
        "src/two.rs",
        &[],
    );
    assert_eq!(asked(&action).1, expected);
    let (state, action) = step(&plan, state, Event::Generated("fn two() {}".to_string()));
    assert_eq!(state.phase, Phase::Verdict);
    assert_eq!(action.writes, pairs(&[("src/two.rs", "fn two() {}")]));
    assert_eq!(
        state.generated,
        pairs(&[("src/one.rs", "fn one() {}"), ("src/two.rs", "fn two() {}")])
    );
}

#[test]
fn split_needs_its_prompt_and_fails_on_an_empty_file() {
    let mut m = metadata();
    m.mode = OutputMode::Split;
    m.target_file = Some("src/big.rs".to_string());
    m.output_files = Some(vec!["src/p1.rs".to_string(), "src/p2.rs".to_string()]);
    let mut plan = plan_of(m);
    let (state, action) = step(&plan, RunState::new(), Event::Begin);
    assert_eq!(state.phase, Phase::Done);
    match action.request {
        Request::Finish(Err(e)) => assert_eq!(
            e.message(),
            "System prompt not found: jobs/_systemprompt_split.md"
        ),
        other => panic!("not finished with an error: {:?}", other),
    }
    plan.prompts.split = Some("SPLIT".to_string());
    let (state, action) = step(&plan, RunState::new(), Event::Begin);
    assert_eq!(state.phase, Phase::Targets);
    assert!(
        matches!(&action.request, Request::ReadFiles { paths, required: true } if paths == &vec!["src/big.rs".to_string()])
    );
    let (state, action) = step(&plan, state, Event::FilesRead(pairs(&[("src/big.rs", "BIG")])));
    assert_eq!(state.phase, Phase::Split(0));
    let expected = assemble_sequential_split_prompt(
        "SPLIT",
        (&"src/big.rs".to_string(), "BIG"),
        &plan.context_files,
        &[],
        "Do it",
        "src/p1.rs",
        &["src/p2.rs".to_string()],
    );
    assert_eq!(asked(&action), (SYSTEM_PROMPT_CREATE, expected.as_str(), true));
    let (state, action) = step(&plan, state, Event::Generated("fn p1() {}".to_string()));
    assert_eq!(state.phase, Phase::Split(1));
    assert_eq!(action.writes, pairs(&[("src/p1.rs", "fn p1() {}")]));
    let (state, action) = step(&plan, state, Event::Generated("   ".to_string()));
    assert_eq!(state.phase, Phase::Done);
    assert_eq!(
        statuses(&action),
        vec!["Fail(Edit failed: Split produced no content for src/p2.rs)", "MarkRan"]
    );
    match action.request {
        Request::Finish(Err(e)) => assert_eq!(
            e,
            WorkSplitError::EditFailed("Split produced no content for src/p2.rs".to_string())
        ),
        other => panic!("not finished with an error: {:?}", other),
    }
}

#[test]
fn failed_build_ends_the_run_where_no_fix_is_allowed() {
    let mut plan = plan_of(metadata());
    plan.settings.verify_build = true;
    plan.settings.build_command = Some("make".to_string());
    let (state, _) = step(&plan, RunState::new(), Event::Begin);
    let (state, action) = step(&plan, state, Event::Generated("fn a() {}".to_string()));
    assert_eq!(state.phase, Phase::Build);
    assert!(action.updates.is_empty());
    assert!(matches!(&action.request, Request::RunBuild { command } if command == "make"));
    let (state, action) =
        step(&plan, state, Event::Built { success: false, output: "boom".to_string() });
    assert_eq!(state.phase, Phase::Done);
    assert_eq!(
        statuses(&action),
        vec![
            "Fail(Build failed for make:\nBuild failed after generating files:\n\nFiles generated:\nsrc/a.rs\n\nBuild output:\nboom)",
            "MarkRan"
        ]
    );
    match action.request {
        Request::Finish(Err(e)) => assert_eq!(
            e,
            WorkSplitError::BuildFailed {
                command: "make".to_string(),
                output: "Build failed after generating files:\n\nFiles generated:\nsrc/a.rs\n\nBuild output:\nboom".to_string(),
            }
        ),
        other => panic!("not finished with an error: {:?}", other),
    }
}

#[test]
fn fixes_are_tried_no_more_often_than_allowed() {
    let mut plan = plan_of(metadata());
    plan.settings.verify_build = true;
    plan.settings.build_command = Some("make".to_string());
    plan.settings.auto_fix = true;
    plan.settings.auto_fix_attempts = 2;
    plan.prompts.fix = Some("FIX".to_string());
    let (state, _) = step(&plan, RunState::new(), Event::Begin);
    let (state, _) = step(&plan, state, Event::Generated("fn a() {}".to_string()));
    let (state, action) =
        step(&plan, state, Event::Built { success: false, output: " e1 \n".to_string() });
    assert_eq!(state.phase, Phase::FixFiles(1));
    assert!(
        matches!(&action.request, Request::ReadFiles { paths, required: false } if paths == &vec!["src/a.rs".to_string()])
    );
    let (state, action) =
        step(&plan, state, Event::FilesRead(pairs(&[("src/a.rs", "fn a() {}")])));
    assert_eq!(state.phase, Phase::Fix(1));
    assert_eq!(
        asked(&action),
        (
            "FIX",
            "## Build/Compilation Errors\n\n```\ne1\n```\n\nFix the compilation errors. Focus on type mismatches, missing imports, and syntax errors.\n\n## Source File: src/a.rs\n\n```\nfn a() {}\n```\n\nOutput the complete fixed file(s) using ~~~worksplit:path/to/file delimiters.\n",
            true
        )
    );
    let (state, action) = step(&plan, state, Event::Generated("fn fixed() {}".to_string()));
    assert_eq!(state.phase, Phase::Rebuild(1));
    assert_eq!(action.writes, pairs(&[("src/a.rs", "fn fixed() {}")]));
    assert!(matches!(&action.request, Request::RunBuild { command } if command == "make"));
    let (state, _) = step(&plan, state, Event::Built { success: false, output: "e2".to_string() });
    assert_eq!(state.phase, Phase::FixFiles(2));
    let (state, _) = step(&plan, state, Event::FilesRead(vec![]));
    assert_eq!(state.phase, Phase::Fix(2));
    let (state, action) = step(&plan, state, Event::GenerationFailed(OllamaError::Timeout(1)));
    assert_eq!(state.phase, Phase::Done);
    assert_eq!(statuses(&action).len(), 2);
    assert_eq!(statuses(&action)[1], "MarkRan");
    match action.request {
        Request::Finish(Err(e)) => assert_eq!(
            e,
            WorkSplitError::BuildFailed {
                command: "make".to_string(),
                output: "Build failed after 2 auto-fix attempts:\n\nFiles:\nsrc/a.rs\n\nFinal error:\ne2".to_string(),
            }
        ),
        other => panic!("not finished with an error: {:?}", other),
    }
}

#[test]
fn build_that_succeeds_after_a_fix_leads_to_verification() {
    let mut plan = plan_of(metadata());
    plan.settings.verify_build = true;
    plan.settings.build_command = Some("make".to_string());
    plan.settings.auto_fix = true;
    plan.prompts.fix = Some("FIX".to_string());
    let (state, _) = step(&plan, RunState::new(), Event::Begin);
    let (state, _) = step(&plan, state, Event::Generated("fn a() {}".to_string()));
    let (state, _) = step(&plan, state, Event::Built { success: false, output: "e".to_string() });
    let (state, _) = step(&plan, state, Event::FilesRead(pairs(&[("src/a.rs", "fn a() {}")])));
    let (state, _) = step(
        &plan,
        state,
        Event::Generated("~~~worksplit:src/b.rs\nfn b() {}\n~~~worksplit".to_string()),
    );
    let (state, action) = step(&plan, state, Event::Built { success: true, output: String::new() });
    assert_eq!(state.phase, Phase::Verdict);
    assert_eq!(statuses(&action), vec!["PendingVerification"]);
    let (state, _) = step(&plan, RunState::new(), Event::Begin);
    let (state, _) = step(&plan, state, Event::Generated("fn a() {}".to_string()));
    let (state, _) = step(&plan, state, Event::Built { success: true, output: String::new() });
    assert_eq!(state.phase, Phase::Verdict);
}
