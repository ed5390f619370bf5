use worksplit::dependency::{batches, DependencyGraph};
use worksplit::job::{normalize_path, JobMetadata, OutputMode};
use worksplit::parser::edit::{
    apply_edit, apply_edits, find_fuzzy_match, normalize_whitespace, parse_edit_instructions,
    EditInstruction,
};
use worksplit::parser::extract::{
    count_lines, extract_code, extract_code_files, files_between_delimiters, files_from_matches,
    strip_nested_fences, strip_worksplit_delimiters, unwrap_fences,
};
use worksplit::parser::pattern::Groups;
use worksplit::parser::verdict::{
    classify_verification, extract_failure_reason, extract_reason_after_pattern,
    parse_verification, reason_from_matches,
};
use worksplit::parser::{ExtractedFile, VerificationResult};
use worksplit::runner::{apply_file_edits, process_edits};
use worksplit::status::{JobStatus, JobStatusEntry, PartialEditState, Timestamp};
use worksplit::store::StatusManager;

fn job(output_file: &str, context: Vec<&str>) -> JobMetadata {
    JobMetadata {
        context_files: context.into_iter().map(String::from).collect(),
        output_dir: String::from("src/"),
        output_file: output_file.to_string(),
        test_file: None,
        output_files: None,
        sequential: None,
        mode: OutputMode::Replace,
        target_files: None,
        target_file: None,
        verify: true,
        struct_name: None,
        new_field: None,
    }
}

fn names(v: &[&str]) -> Vec<String> {
    v.iter().map(|s| s.to_string()).collect()
}

#[test]
fn consumer_runs_in_the_group_after_its_producer() {
    let jobs = vec![
        ("A".to_string(), job("a.rs", vec![])),
        ("B".to_string(), job("b.rs", vec!["src/a.rs"])),
    ];
    let graph = DependencyGraph::build(&jobs);
    assert!(graph.depends_on("B", "A"));
    assert!(!graph.depends_on("A", "B"));
    let groups = graph.execution_groups(&names(&["A", "B"]));
    assert_eq!(groups, vec![names(&["A"]), names(&["B"])]);
}

#[test]
fn consumers_of_one_producer_share_a_group_in_order() {
    let jobs = vec![
        ("D".to_string(), job("d.rs", vec!["src/a.rs"])),
        ("A".to_string(), job("a.rs", vec![])),
        ("C".to_string(), job("c.rs", vec!["src/a.rs"])),
    ];
    let graph = DependencyGraph::build(&jobs);
    let groups = graph.execution_groups(&names(&["D", "C", "A"]));
    assert_eq!(groups, vec![names(&["A"]), names(&["C", "D"])]);
}

#[test]
fn dependency_outside_the_ready_jobs_holds_nothing_up() {
    let jobs = vec![
        ("A".to_string(), job("a.rs", vec![])),
        ("B".to_string(), job("b.rs", vec!["src/a.rs"])),
    ];
    let graph = DependencyGraph::build(&jobs);
    let groups = graph.execution_groups(&names(&["B"]));
    assert_eq!(groups, vec![names(&["B"])]);
}

#[test]
fn cycle_gives_one_last_group_in_order() {
    let mut graph = DependencyGraph::new();
    graph.dependencies.push(("x".to_string(), names(&["y"])));
    graph.dependencies.push(("y".to_string(), names(&["x"])));
    graph.dependencies.push(("a".to_string(), vec![]));
    let groups = graph.execution_groups(&names(&["y", "x", "a"]));
    assert_eq!(groups, vec![names(&["a"]), names(&["x", "y"])]);
}

#[test]
fn ready_job_named_twice_counts_once() {
    let graph = DependencyGraph::new();
    let groups = graph.execution_groups(&names(&["b", "a", "b"]));
    assert_eq!(groups, vec![names(&["a", "b"])]);
}

#[test]
fn later_entry_for_a_job_replaces_the_earlier() {
    let mut graph = DependencyGraph::new();
    graph.dependencies.push(("j".to_string(), names(&["a"])));
    graph.dependencies.push(("j".to_string(), names(&["b"])));
    assert_eq!(graph.get_dependencies("j"), names(&["b"]));
    assert!(!graph.depends_on("j", "a"));
}

#[test]
fn job_does_not_depend_on_itself() {
    let jobs = vec![("A".to_string(), job("a.rs", vec!["src/a.rs"]))];
    let graph = DependencyGraph::build(&jobs);
    assert!(graph.get_dependencies("A").is_empty());
}

#[test]
fn target_files_count_as_input_for_edit_jobs_only() {
    let mut edit = job("e.rs", vec![]);
    edit.mode = OutputMode::Edit;
    edit.target_files = Some(names(&["src/a.rs"]));
    let mut plain = job("p.rs", vec![]);
    plain.target_files = Some(names(&["src/a.rs"]));
    let jobs = vec![
        ("A".to_string(), job("a.rs", vec![])),
        ("E".to_string(), edit),
        ("P".to_string(), plain),
    ];
    let graph = DependencyGraph::build(&jobs);
    assert!(graph.depends_on("E", "A"));
    assert!(!graph.depends_on("P", "A"));
}

#[test]
fn output_files_are_registered_with_their_job() {
    let mut multi = job("m.rs", vec![]);
    multi.output_files = Some(names(&["src/x.rs", "src/y.rs"]));
    let jobs = vec![
        ("M".to_string(), multi),
        ("U".to_string(), job("u.rs", vec!["src/y.rs"])),
    ];
    let graph = DependencyGraph::build(&jobs);
    assert_eq!(graph.get_dependencies("U"), names(&["M"]));
}

#[test]
fn batches_cut_groups_and_keep_the_order() {
    let groups = vec![names(&["a"]), names(&["b", "c", "d"])];
    assert_eq!(batches(&groups, 2), vec![names(&["a"]), names(&["b", "c"]), names(&["d"])]);
    assert_eq!(batches(&groups, 0), groups);
    assert_eq!(batches(&groups, 3), groups);
}

#[test]
fn delimiter_pairs_with_paths_give_one_file_each() {
    let response = "~~~worksplit:src/a.rs\n```rust\nfn a() {}\n```\n~~~worksplit\n\n~~~worksplit:src/b.rs rust\nfn b() {}\n~~~worksplit\n\n~~~worksplit:src/c.rs\nsrc/c.rs\n```\nfn c() {}\n```\n~~~worksplit";
    let files = extract_code_files(response);
    assert_eq!(files.len(), 3);
    assert_eq!(files[0].path, Some("src/a.rs".to_string()));
    assert_eq!(files[0].content, "fn a() {}");
    assert_eq!(files[1].path, Some("src/b.rs".to_string()));
    assert_eq!(files[1].content, "fn b() {}");
    assert_eq!(files[2].path, Some("src/c.rs".to_string()));
    assert_eq!(files[2].content, "fn c() {}");
    for f in &files {
        assert!(!f.content.contains("```"));
    }
}

#[test]
fn fenced_blocks_are_joined_into_one_pathless_file() {
    let files = extract_code_files("one\n```\nfn a() {}\n```\ntwo\n```rust\nfn b() {}\n```\n");
    assert_eq!(files.len(), 1);
    assert_eq!(files[0].path, None);
    assert_eq!(files[0].content, "fn a() {}\n\nfn b() {}");
}

#[test]
fn text_without_fences_loses_stray_delimiter_lines() {
    let files = extract_code_files("  ~~~WorkSplit\nfn a() {}\n~~~\n");
    assert_eq!(files.len(), 1);
    assert_eq!(files[0].path, None);
    assert_eq!(files[0].content, "fn a() {}");
    assert_eq!(strip_worksplit_delimiters("a\n ~~~worksplit:x \nb\n~~~\nc"), "a\nb\nc");
}

#[test]
fn files_are_chosen_from_the_matches_in_order_of_the_tiers() {
    let delimited = vec![ExtractedFile::with_path("src/a.rs".to_string(), "fn a() {}".to_string())];
    let headed = vec![Groups {
        first: Some("src/h.rs".to_string()),
        second: Some("fn h() {}".to_string()),
    }];
    let fenced = vec![Groups { first: Some(" fn f() {} ".to_string()), second: None }];
    let files = files_from_matches(delimited, &headed, &fenced, "raw");
    assert_eq!(files.len(), 1);
    assert_eq!(files[0].path, Some("src/a.rs".to_string()));
    assert_eq!(files[0].content, "fn a() {}");
    let files = files_from_matches(vec![], &headed, &fenced, "raw");
    assert_eq!(files[0].path, Some("src/h.rs".to_string()));
    assert_eq!(files[0].content, "fn h() {}");
    let files = files_from_matches(vec![], &vec![], &fenced, "raw");
    assert_eq!(files[0].path, None);
    assert_eq!(files[0].content, "fn f() {}");
    let files = files_from_matches(vec![], &vec![], &vec![], " raw ");
    assert_eq!(files[0].content, "raw");
    let empty = vec![Groups { first: Some("p".to_string()), second: Some("  ".to_string()) }];
    let files = files_from_matches(vec![], &empty, &vec![], "raw");
    assert_eq!(files[0].path, None);
    assert_eq!(files[0].content, "raw");
}

fn lines_of_text(text: &str) -> Vec<Vec<char>> {
    text.lines().map(|l| l.chars().collect()).collect()
}

fn file(path: Option<&str>, content: &str) -> ExtractedFile {
    ExtractedFile { path: path.map(|p| p.to_string()), content: content.to_string() }
}

#[test]
fn body_between_delimiters_comes_out_whole() {
    let files = extract_code_files("~~~worksplit:a.txt\nhello\nworld\n~~~worksplit");
    assert_eq!(files, vec![file(Some("a.txt"), "hello\nworld")]);
    let files = extract_code_files("~~~worksplit:a.txt\r\nhello\r\nworld\r\n~~~worksplit\r\n");
    assert_eq!(files, vec![file(Some("a.txt"), "hello\nworld")]);
}

#[test]
fn bodies_of_one_word_give_one_file_each() {
    let response = "~~~worksplit:a.txt\none\n~~~worksplit\nprose\n~~~worksplit:b.txt\ntwo\n~~~worksplit";
    let files = extract_code_files(response);
    assert_eq!(files, vec![file(Some("a.txt"), "one"), file(Some("b.txt"), "two")]);
}

#[test]
fn fence_markers_inside_a_body_are_taken_out() {
    let response = "~~~worksplit:a.md\nbefore\n```rust\nfn a() {}\n  ```\nafter\n~~~worksplit";
    let files = extract_code_files(response);
    assert_eq!(files, vec![file(Some("a.md"), "before\nfn a() {}\nafter")]);
    assert!(!files[0].content.contains("```"));
    assert!(!files[0].content.to_lowercase().contains("~~~worksplit"));
}

#[test]
fn opening_lines_tell_path_and_language() {
    let read = |text: &str| files_between_delimiters(&lines_of_text(text));
    assert_eq!(read("~~~worksplit rust\nx\n~~~worksplit"), vec![file(None, "x")]);
    assert_eq!(read("  ~~~WORKSPLIT:p.rs  rust  \nx\n~~~WorkSplit"), vec![file(Some("p.rs"), "x")]);
    assert_eq!(read("~~~worksplit:p.rs\nx\n~~~worksplit:q.rs\ny\n~~~worksplit"), vec![file(Some("p.rs"), "x")]);
    assert_eq!(read("~~~worksplit:\nx\n~~~worksplit"), vec![]);
    assert_eq!(read("~~~worksplit: p.rs\nx\n~~~worksplit"), vec![]);
    assert_eq!(read("~~~worksplit:p.rs rust extra\nx\n~~~worksplit\ny\n~~~worksplit"), vec![file(None, "y")]);
    assert_eq!(read("~~~worksplitx\nx\n~~~worksplit\ny\n~~~worksplit"), vec![file(None, "y")]);
    assert_eq!(read("~~~worksplit:p.rs\nx\n ~~~worksplit"), vec![]);
    assert_eq!(read("~~~worksplit:p.rs\n```\n```\n~~~worksplit\n~~~worksplit\nz\n~~~worksplit"), vec![file(None, "z")]);
    assert_eq!(read("text ~~~worksplit:p.rs\nx\n~~~worksplit"), vec![]);
}

#[test]
fn fuzzy_edit_replaces_the_lines_where_they_stand() {
    let edit = |find: &str, replace: &str| EditInstruction {
        file_path: "t.rs".to_string(),
        find: find.to_string(),
        replace: replace.to_string(),
    };
    assert_eq!(apply_edit("xa b\na b", &edit("a  b", "c")), Ok("xa b\nc".to_string()));
    assert_eq!(apply_edit("a\r\nb", &edit(" a\n b", "X")), Ok("X".to_string()));
    assert_eq!(apply_edit("k\r\n  a\r\n\tb\r\nz", &edit("a\nb", "X")), Ok("k\r\nX\r\nz".to_string()));
    assert_eq!(apply_edit("  a\n  a\n", &edit("a ", "b")), Ok("b\n  a\n".to_string()));
    assert_eq!(apply_edit("p\n q \n", &edit("q  ", "r")), Ok("p\nr\n".to_string()));
}

#[test]
fn wrapping_fences_are_taken_off() {
    assert_eq!(strip_nested_fences("  ```rust\nfn a() {}\n```  "), "fn a() {}");
    assert_eq!(strip_nested_fences("src/a.rs\n```\nfn a() {}\n```"), "fn a() {}");
    assert_eq!(strip_nested_fences(" plain "), "plain");
    let inner = Some(Groups { first: Some(" x ".to_string()), second: None });
    assert_eq!(unwrap_fences("t", &inner, &None), "x");
    assert_eq!(unwrap_fences("t", &None, &inner), "x");
    assert_eq!(unwrap_fences("t", &None, &None), "t");
    let groupless = Some(Groups { first: None, second: None });
    assert_eq!(unwrap_fences("t", &groupless, &inner), "x");
}

#[test]
fn code_of_several_files_is_joined_by_an_empty_line() {
    let response = "~~~worksplit:a.rs\nfn a() {}\n~~~worksplit\n~~~worksplit:b.rs\nfn b() {}\n~~~worksplit";
    assert_eq!(extract_code(response), "fn a() {}\n\nfn b() {}");
}

#[test]
fn lines_are_counted_as_the_standard_library_counts_them() {
    assert_eq!(count_lines(""), 0);
    assert_eq!(count_lines("a"), 1);
    assert_eq!(count_lines("a\n"), 1);
    assert_eq!(count_lines("a\n\nb"), 3);
    assert_eq!(count_lines("a\r\nb\r"), 2);
    assert_eq!(count_lines("\n"), 1);
    for text in ["", "a", "a\n", "a\n\nb", "a\r\nb\r", "\n", "\r\n\r\n", "x\ry\n"] {
        assert_eq!(count_lines(text), text.lines().count());
    }
}

#[test]
fn verdicts_are_read_as_stated() {
    let (result, reason) = parse_verification("FAIL: bad");
    assert_eq!(result, VerificationResult::FailHard);
    assert_eq!(reason, Some("bad".to_string()));
    let (result, reason) = parse_verification("pass_with_warnings: minor");
    assert_eq!(result, VerificationResult::PassWithWarnings);
    assert_eq!(reason, Some("minor".to_string()));
    let (result, reason) = parse_verification("maybe ok?");
    assert_eq!(result, VerificationResult::FailHard);
    assert_eq!(reason, Some("Unclear verification response".to_string()));
}

#[test]
fn verdict_marks_come_before_first_words_and_first_words_before_mentions() {
    assert_eq!(parse_verification("  Passed.  ").0, VerificationResult::Pass);
    assert_eq!(parse_verification("pass, though it may fail later").0, VerificationResult::Pass);
    assert_eq!(parse_verification("It will pass").0, VerificationResult::Pass);
    assert_eq!(parse_verification("It may pass or fail").0, VerificationResult::FailHard);
    assert_eq!(parse_verification("FailSoft - leaks").0, VerificationResult::FailSoft);
    assert_eq!(parse_verification("fail   hard").0, VerificationResult::FailHard);
    assert_eq!(
        parse_verification("PassWithWarnings"),
        (VerificationResult::PassWithWarnings, None)
    );
    assert_eq!(parse_verification(""), (
        VerificationResult::FailHard,
        Some("Unclear verification response".to_string())
    ));
}

#[test]
fn first_word_is_judged_by_its_letters() {
    assert_eq!(parse_verification("**PASS** fine").0, VerificationResult::Pass);
    assert_eq!(parse_verification("[failed] x").0, VerificationResult::FailHard);
    assert_eq!(parse_verification("pass\u{e9} but fail").0, VerificationResult::FailHard);
}

#[test]
fn verdict_is_classified_from_its_parts() {
    assert_eq!(
        classify_verification("anything", "pass", Some("r".to_string())),
        (VerificationResult::Pass, None)
    );
    assert_eq!(
        classify_verification("anything", "failed", Some("r".to_string())),
        (VerificationResult::FailHard, Some("r".to_string()))
    );
    assert_eq!(
        classify_verification("it did FAIL", "it", None),
        (VerificationResult::FailHard, None)
    );
    assert_eq!(
        classify_verification("fail_soft: leak", "failsoft", Some("r".to_string())),
        (VerificationResult::FailSoft, Some("leak".to_string()))
    );
    assert_eq!(
        classify_verification("hm", "hm", Some("r".to_string())),
        (VerificationResult::FailHard, Some("Unclear verification response".to_string()))
    );
}

#[test]
fn reason_follows_the_mark_and_its_separators() {
    assert_eq!(
        extract_reason_after_pattern("FAIL_HARD -- : broken\nmore", &["fail_hard"]),
        Some("broken".to_string())
    );
    assert_eq!(extract_reason_after_pattern("FAIL_HARD:   ", &["fail_hard"]), None);
    assert_eq!(
        extract_reason_after_pattern("x fail hard: y", &["fail_hard", "fail hard"]),
        Some("y".to_string())
    );
    assert_eq!(extract_reason_after_pattern("nothing", &["fail_hard"]), None);
}

#[test]
fn failure_reason_is_found_by_the_patterns_or_in_the_later_lines() {
    assert_eq!(extract_failure_reason("FAIL: a\nb"), Some("a".to_string()));
    assert_eq!(extract_failure_reason("Failed - x"), Some("x".to_string()));
    assert_eq!(extract_failure_reason("no\nReason: because"), Some("because".to_string()));
    assert_eq!(extract_failure_reason("first\nsecond\nthird"), Some("second third".to_string()));
    assert_eq!(extract_failure_reason("single"), None);
    let m = Some(Groups { first: Some("  why\nmore ".to_string()), second: None });
    assert_eq!(reason_from_matches("x", &None, &m, &None), Some("why".to_string()));
    let blank = Some(Groups { first: Some("   ".to_string()), second: None });
    assert_eq!(reason_from_matches("x\ny", &blank, &None, &None), Some("y".to_string()));
    assert_eq!(reason_from_matches("x", &blank, &None, &None), None);
}

#[test]
fn exact_and_fuzzy_edits_both_apply_and_the_fuzzy_one_keeps_the_indentation() {
    let response = "FILE: src/lib.rs\nFIND:\nfn one() {}\nREPLACE:\nfn uno() {}\nEND\nFILE: src/lib.rs\nFIND:\nfn two()  {\n  let  x = 1;\nREPLACE:\nfn two() {\n    let x = 2;\nEND\n";
    let parsed = parse_edit_instructions(response);
    assert_eq!(parsed.edits.len(), 2);
    assert_eq!(parsed.affected_files, vec!["src/lib.rs".to_string()]);
    let targets = vec![(
        "src/lib.rs".to_string(),
        "fn one() {}\nfn two() {\n    let x = 1;\n    let y = 3;\n}\n".to_string(),
    )];
    let result = process_edits(&targets, &parsed).unwrap();
    assert!(result.partial_state.is_none());
    assert_eq!(result.generated_files.len(), 1);
    assert_eq!(result.generated_files[0].0, "src/lib.rs");
    assert_eq!(
        result.generated_files[0].1,
        "fn uno() {}\nfn two() {\n    let x = 2;\n    let y = 3;\n}\n"
    );
    assert_eq!(result.output_paths, vec!["src/lib.rs".to_string()]);
    assert_eq!(result.total_lines, Some(5));
    assert!(result.suggestions.is_empty());
}

#[test]
fn failed_edit_leaves_the_content_and_is_recorded() {
    let edit = EditInstruction {
        file_path: "f.rs".to_string(),
        find: "absent text here".to_string(),
        replace: "x".to_string(),
    };
    let content = "fn a() {}\n    Absent  Text here\n";
    assert!(apply_edit(content, &edit).is_err());
    let mut state = PartialEditState::new();
    let after = apply_file_edits(content, &[&edit], &mut state);
    assert_eq!(after, content);
    assert_eq!(state.successful_edits.len(), 0);
    assert_eq!(state.failed_edits.len(), 1);
    assert_eq!(state.failed_edits[0].file_path, "f.rs");
    assert_eq!(state.failed_edits[0].find_preview, "absent text here");
    assert_eq!(state.failed_edits[0].suggested_line, None);
    assert_eq!(
        state.failed_edits[0].reason,
        "FIND text not found in f.rs.\nSearched for: \"absent text here\"\n\nSimilar text at line 2 (case mismatch?): \"    Absent  Text here\""
    );
}

#[test]
fn failure_message_quotes_and_points_at_a_possible_match() {
    let edit = EditInstruction {
        file_path: "f.rs".to_string(),
        find: "let \"x\" = 1;\nlet y = 2;".to_string(),
        replace: "x".to_string(),
    };
    let err = apply_edit("a\n  let   \"x\" = 1;   // c\nb", &edit).unwrap_err();
    assert_eq!(
        err,
        "FIND text not found in f.rs.\nSearched for: \"let \\\"x\\\" = 1;\\nlet y = 2;\"\n\nPossible match at line 2: \"  let   \\\"x\\\" = 1;   // c\""
    );
    let short = EditInstruction {
        file_path: "f.rs".to_string(),
        find: "abc".to_string(),
        replace: "x".to_string(),
    };
    assert_eq!(
        apply_edit("ABC", &short).unwrap_err(),
        "FIND text not found in f.rs.\nSearched for: \"abc\""
    );
}

#[test]
fn some_edits_failing_gives_a_partial_state() {
    let parsed = parse_edit_instructions(
        "FILE: a.rs\nFIND:\nold\nREPLACE:\nnew\nEND\nFIND:\nmissing thing\nREPLACE:\nz\nEND\nFILE: b.rs\nFIND:\nnope nope\nREPLACE:\nz\nEND\n",
    );
    assert_eq!(parsed.edits.len(), 3);
    assert_eq!(parsed.affected_files, vec!["a.rs".to_string(), "b.rs".to_string()]);
    let targets =
        vec![("a.rs".to_string(), "old".to_string()), ("b.rs".to_string(), "keep".to_string())];
    let result = process_edits(&targets, &parsed).unwrap();
    assert_eq!(result.generated_files, vec![("a.rs".to_string(), "new".to_string())]);
    let state = result.partial_state.unwrap();
    assert_eq!(state.successful_edits.len(), 1);
    assert_eq!(state.failed_edits.len(), 2);
    assert_eq!(state.failed_edits[0].file_path, "a.rs");
    assert_eq!(state.failed_edits[1].file_path, "b.rs");
}

#[test]
fn all_edits_failing_is_an_error() {
    let parsed = parse_edit_instructions("FILE: a.rs\nFIND:\nmissing\nREPLACE:\nz\nEND\n");
    let targets = vec![("a.rs".to_string(), "old".to_string())];
    let err = process_edits(&targets, &parsed).unwrap_err();
    assert_eq!(err.message(), "Edit failed: Edit mode produced no edits");
}

#[test]
fn instruction_needs_a_file_and_both_blocks() {
    let no_file = parse_edit_instructions("FIND:\na\nREPLACE:\nb\nEND\n");
    assert!(no_file.edits.is_empty());
    let no_replace = parse_edit_instructions("FILE: f\nFIND:\na\nREPLACE:\nEND\n");
    assert!(no_replace.edits.is_empty());
    let no_find = parse_edit_instructions("FILE: f\nFIND:\nREPLACE:\nb\nEND\n");
    assert!(no_find.edits.is_empty());
    let both = parse_edit_instructions("  file:  f  \n find: \n  a\n\n  b \nRePlAcE:\n c \n end \n");
    assert_eq!(both.edits.len(), 1);
    assert_eq!(both.edits[0].file_path, "f");
    assert_eq!(both.edits[0].find, "a\n\n  b");
    assert_eq!(both.edits[0].replace, "c");
}

#[test]
fn fuzzy_match_tells_where_the_lines_stand() {
    let content = "fn a() {\n    let x = 1;\n}\n";
    let found = find_fuzzy_match(content, "let   x = 1;").unwrap();
    assert_eq!(found, (9, 24, "    let x = 1;".to_string()));
    let last = find_fuzzy_match("a\n  b", "b").unwrap();
    assert_eq!(last, (2, 5, "  b".to_string()));
    assert_eq!(find_fuzzy_match(content, "let y = 1;"), None);
    assert_eq!(find_fuzzy_match(content, ""), None);
    let wide = find_fuzzy_match("\u{e9}\n  x", "x").unwrap();
    assert_eq!(wide, (3, 6, "  x".to_string()));
}

#[test]
fn white_space_is_normalised_line_by_line() {
    assert_eq!(normalize_whitespace("a \t b\r\n\u{a0}c\u{3000}d\n"), "a b\nc d");
    assert_eq!(normalize_whitespace(""), "");
    assert_eq!(normalize_whitespace("\n\n"), "\n");
}

#[test]
fn edits_apply_in_order_and_stop_at_the_first_failure() {
    let one = EditInstruction {
        file_path: "f".to_string(),
        find: "a".to_string(),
        replace: "b".to_string(),
    };
    let two = EditInstruction {
        file_path: "f".to_string(),
        find: "b".to_string(),
        replace: "c".to_string(),
    };
    assert_eq!(apply_edits("a", &[&one, &two]).unwrap(), "c");
    assert!(apply_edits("a", &[&two, &one]).is_err());
    assert_eq!(apply_edits("a", &[]).unwrap(), "a");
    assert_eq!(apply_edit("aXa", &one).unwrap(), "bXa");
}

#[test]
fn reset_and_sync_return_a_job_to_created() {
    for status in [
        JobStatus::Created,
        JobStatus::PendingTest,
        JobStatus::PendingWork,
        JobStatus::PendingVerification,
        JobStatus::PendingTestRun,
        JobStatus::Pass,
        JobStatus::Fail,
        JobStatus::Partial,
    ] {
        let mut store = StatusManager::new();
        store.sync_with_jobs(&names(&["j", "k"]));
        store.update_status("j", status).unwrap();
        store.set_failed("j", "broken".to_string()).unwrap();
        store.update_status("j", status).unwrap();
        store.set_partial("j", PartialEditState::new()).unwrap();
        store.update_status("j", status).unwrap();
        store.mark_ran("j").unwrap();
        store.reset_job("j").unwrap();
        store.sync_with_jobs(&names(&["k", "j"]));
        let entry = store.get("j").unwrap();
        assert_eq!(entry.status, JobStatus::Created);
        assert!(!entry.ran);
        assert!(entry.error.is_none());
        assert!(entry.partial_state.is_none());
    }
}

#[test]
fn sync_adds_new_jobs_and_drops_jobs_that_are_gone() {
    let now = Timestamp { secs: 5, nanos: 7 };
    let mut store = StatusManager::new();
    store.sync_at(&names(&["a", "b", "a"]), now);
    assert_eq!(store.all_entries().len(), 2);
    store.update_status_at("a", JobStatus::Pass, Timestamp { secs: 6, nanos: 0 }).unwrap();
    store.sync_at(&names(&["c", "a"]), Timestamp { secs: 9, nanos: 0 });
    let ids: Vec<&str> = store.all_entries().iter().map(|e| e.id.as_str()).collect();
    assert_eq!(ids, vec!["a", "c"]);
    let a = store.get("a").unwrap();
    assert_eq!(a.status, JobStatus::Pass);
    assert_eq!(a.created_at, now);
    assert_eq!(a.updated_at, Timestamp { secs: 6, nanos: 0 });
    assert_eq!(store.get("c").unwrap().created_at, Timestamp { secs: 9, nanos: 0 });
    assert!(store.get("b").is_none());
}

#[test]
fn new_entry_is_stamped_once() {
    let entry = JobStatusEntry::new("j".to_string());
    assert_eq!(entry.created_at, entry.updated_at);
    assert!(entry.created_at.secs > 1_600_000_000);
    assert!(entry.created_at.nanos < 2_000_000_000);
}

#[test]
fn status_after_the_test_is_work_with_or_without_the_test_first_steps() {
    assert_eq!(JobStatus::PendingTest.next_status(false), Some(JobStatus::PendingWork));
    assert_eq!(JobStatus::PendingTest.next_status(true), Some(JobStatus::PendingWork));
    assert_eq!(JobStatus::PendingTestRun.next_status(false), None);
    assert_eq!(JobStatus::Partial.next_status(true), None);
}

#[test]
fn paths_meet_in_the_form_in_which_they_are_compared() {
    use_normal("src//a.rs", "src/a.rs");
    use_normal("src/./a.rs/", "src/a.rs");
    use_normal("./a.rs", "./a.rs");
    use_normal("/x//./y/", "/x/y");
    use_normal("a/../b", "a/../b");
    use_normal("", "");
    use_normal("/", "/");
    use_normal(".", ".");
    let jobs = vec![
        ("a".to_string(), job("a.rs", vec![])),
        ("b".to_string(), job("b.rs", vec!["src//a.rs", "src/./a.rs"])),
    ];
    let graph = DependencyGraph::build(&jobs);
    assert!(graph.depends_on("b", "a"));
    assert_eq!(graph.get_dependencies("b"), names(&["a"]));
    assert_eq!(graph.execution_groups(&names(&["b", "a"])), vec![names(&["a"]), names(&["b"])]);
}

fn use_normal(path: &str, expected: &str) {
    assert_eq!(normalize_path(path), expected);
}

#[test]
fn failure_hint_finds_a_line_that_differs_in_case_only() {
    let edit = EditInstruction {
        file_path: "t.rs".to_string(),
        find: "let \u{e4}rger = 2;".to_string(),
        replace: "x".to_string(),
    };
    let message = apply_edit("fn a() {}\nlet \u{c4}RGER = 2;\n", &edit).unwrap_err();
    assert_eq!(
        message,
        "FIND text not found in t.rs.\nSearched for: \"let \u{e4}rger = 2;\"\n\nSimilar text at line 2 (case mismatch?): \"let \u{c4}RGER = 2;\""
    );
}

#[test]
fn instructions_belong_to_the_file_that_their_path_names() {
    let parsed = parse_edit_instructions(
        "FILE: src//main.rs\nFIND:\na\nREPLACE:\nb\nEND\nFILE: src/./main.rs\nFIND:\nc\nREPLACE:\nd\nEND\nFILE: src/lib.rs\nFIND:\ne\nREPLACE:\nf\nEND\n",
    );
    assert_eq!(parsed.edits.len(), 3);
    assert_eq!(parsed.affected_files, names(&["src//main.rs", "src/lib.rs"]));
    let found = parsed.edits_for_file(&"src/main.rs".to_string());
    assert_eq!(found.len(), 2);
    assert_eq!(found[0].find, "a");
    assert_eq!(found[1].find, "c");
    assert_eq!(parsed.edits_for_file(&"main.rs".to_string()).len(), 0);
}
