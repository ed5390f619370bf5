use worksplit::parser::extract::{extract_code, extract_code_files};
use worksplit::parser::prompts::assemble_sequential_creation_prompt;
use worksplit::parser::verdict::parse_verification;
use worksplit::parser::{ExtractedFile, VerificationResult};
use worksplit::status::JobStatus;

#[test]
fn extract_test_extract_code_with_worksplit_fences() {
    let response = "Here's the code:\n\n~~~worksplit rust\nfn main() {\n    println!(\"Hello\");\n}\n~~~worksplit\n\nThat's it!";

    let code = extract_code(response);
    assert!(code.contains("fn main()"));
    assert!(code.contains("println!"));
    assert!(!code.contains("Here's the code"));
    assert!(!code.contains("~~~worksplit"));
}

#[test]
fn extract_test_extract_code_with_worksplit_fences_no_language() {
    let response = "Code here:\n\n~~~worksplit\nfn test() {}\n~~~worksplit\n\nDone.";

    let code = extract_code(response);
    assert!(code.contains("fn test()"));
    assert!(!code.contains("Code here"));
}

#[test]
fn extract_test_extract_code_multiple_worksplit_blocks() {
    let response = "First block:\n\n~~~worksplit rust\nfn foo() {}\n~~~worksplit\n\nSecond block:\n\n~~~worksplit\nfn bar() {}\n~~~worksplit";

    let code = extract_code(response);
    assert!(code.contains("fn foo()"));
    assert!(code.contains("fn bar()"));
}

#[test]
fn extract_test_extract_code_fallback_to_generic() {
    let response = "Here's the code:\n\n```rust\nfn main() {\n    println!(\"Hello\");\n}\n```\n\nThat's it!";

    let code = extract_code(response);
    assert!(code.contains("fn main()"));
    assert!(code.contains("println!"));
    assert!(!code.contains("Here's the code"));
}

#[test]
fn extract_test_extract_code_no_fences() {
    let response = "fn main() {\n    println!(\"Hello\");\n}";
    let code = extract_code(response);
    assert_eq!(code, response);
}

#[test]
fn extract_test_parse_verification_pass() {
    let (result, msg) = parse_verification("PASS");
    assert_eq!(result, VerificationResult::Pass);
    assert!(result.is_pass());
    assert!(!result.is_hard_fail());
    assert_eq!(result.to_job_status(), JobStatus::Pass);
    assert_eq!(msg, None);
}

#[test]
fn extract_test_parse_verification_pass_with_warnings() {
    let (result, msg) = parse_verification("PASS_WITH_WARNINGS: Minor style issues");
    assert_eq!(result, VerificationResult::PassWithWarnings);
    assert!(result.is_pass());
    assert!(!result.is_hard_fail());
    assert_eq!(result.to_job_status(), JobStatus::Pass);
    assert_eq!(msg, Some("Minor style issues".to_string()));
}

#[test]
fn extract_test_parse_verification_fail_soft() {
    let (result, msg) = parse_verification("FAIL_SOFT: Potential memory leak");
    assert_eq!(result, VerificationResult::FailSoft);
    assert!(!result.is_pass());
    assert!(!result.is_hard_fail());
    assert_eq!(result.to_job_status(), JobStatus::Fail);
    assert_eq!(msg, Some("Potential memory leak".to_string()));
}

#[test]
fn extract_test_parse_verification_fail_hard() {
    let (result, msg) = parse_verification("FAIL_HARD: Syntax errors on line 42");
    assert_eq!(result, VerificationResult::FailHard);
    assert!(!result.is_pass());
    assert!(result.is_hard_fail());
    assert_eq!(result.to_job_status(), JobStatus::Fail);
    assert_eq!(msg, Some("Syntax errors on line 42".to_string()));
}

#[test]
fn extract_test_parse_verification_case_insensitive() {
    let (result, _) = parse_verification("pass_with_warnings");
    assert_eq!(result, VerificationResult::PassWithWarnings);

    let (result, _) = parse_verification("FAIL_SOFT");
    assert_eq!(result, VerificationResult::FailSoft);

    let (result, _) = parse_verification("fail_hard");
    assert_eq!(result, VerificationResult::FailHard);
}

#[test]
fn extract_test_parse_verification_spaces() {
    let (result, _) = parse_verification("PASS WITH WARNINGS: Minor style issues");
    assert_eq!(result, VerificationResult::PassWithWarnings);

    let (result, _) = parse_verification("FAIL SOFT: Potential memory leak");
    assert_eq!(result, VerificationResult::FailSoft);

    let (result, _) = parse_verification("FAIL HARD: Syntax errors on line 42");
    assert_eq!(result, VerificationResult::FailHard);
}

#[test]
fn extract_test_parse_verification_simple_fail_defaults_to_hard() {
    let (result, msg) = parse_verification("FAIL: Syntax errors");
    assert_eq!(result, VerificationResult::FailHard);
    assert_eq!(msg, Some("Syntax errors".to_string()));
}

#[test]
fn extract_test_parse_verification_unclear_defaults_to_hard_fail() {
    let (result, msg) = parse_verification("This is a confusing response");
    assert_eq!(result, VerificationResult::FailHard);
    assert_eq!(msg, Some("Unclear verification response".to_string()));
}

#[test]
fn extract_test_verification_result_is_pass() {
    assert!(VerificationResult::Pass.is_pass());
    assert!(VerificationResult::PassWithWarnings.is_pass());
    assert!(!VerificationResult::FailSoft.is_pass());
    assert!(!VerificationResult::FailHard.is_pass());
}

#[test]
fn extract_test_verification_result_is_hard_fail() {
    assert!(!VerificationResult::Pass.is_hard_fail());
    assert!(!VerificationResult::PassWithWarnings.is_hard_fail());
    assert!(!VerificationResult::FailSoft.is_hard_fail());
    assert!(VerificationResult::FailHard.is_hard_fail());
}

#[test]
fn extract_test_verification_result_to_job_status() {
    assert_eq!(VerificationResult::Pass.to_job_status(), JobStatus::Pass);
    assert_eq!(VerificationResult::PassWithWarnings.to_job_status(), JobStatus::Pass);
    assert_eq!(VerificationResult::FailSoft.to_job_status(), JobStatus::Fail);
    assert_eq!(VerificationResult::FailHard.to_job_status(), JobStatus::Fail);
}

#[test]
fn extract_test_extract_code_files_with_path() {
    let response = r#"Here's the code:

~~~worksplit:src/main.rs
fn main() {
    println!("Hello");
}
~~~worksplit

That's it!"#;

    let files = extract_code_files(response);
    assert_eq!(files.len(), 1);
    assert_eq!(files[0].path, Some(String::from("src/main.rs")));
    assert!(files[0].content.contains("fn main()"));
}

#[test]
fn extract_test_extract_code_files_multiple_files() {
    let response = r#"Here are the files:

~~~worksplit:src/lib.rs
pub mod models;
pub mod utils;
~~~worksplit

~~~worksplit:src/models.rs
pub struct User {
    pub name: String,
}
~~~worksplit

~~~worksplit:src/utils.rs
pub fn helper() -> bool {
    true
}
~~~worksplit

Done!"#;

    let files = extract_code_files(response);
    assert_eq!(files.len(), 3);
    
    assert_eq!(files[0].path, Some(String::from("src/lib.rs")));
    assert!(files[0].content.contains("pub mod models"));
    
    assert_eq!(files[1].path, Some(String::from("src/models.rs")));
    assert!(files[1].content.contains("pub struct User"));
    
    assert_eq!(files[2].path, Some(String::from("src/utils.rs")));
    assert!(files[2].content.contains("pub fn helper"));
}

#[test]
fn extract_test_extract_code_files_mixed_paths() {
    let response = r#"
~~~worksplit:src/specific.rs
fn specific() {}
~~~worksplit

~~~worksplit
fn default_file() {}
~~~worksplit
"#;

    let files = extract_code_files(response);
    assert_eq!(files.len(), 2);
    
    assert_eq!(files[0].path, Some(String::from("src/specific.rs")));
    assert!(files[0].content.contains("fn specific()"));
    
    assert_eq!(files[1].path, None);
    assert!(files[1].content.contains("fn default_file()"));
}

#[test]
fn extract_test_extract_code_files_with_path_and_language() {
    let response = r#"
~~~worksplit:src/main.rs rust
fn main() {
    println!("Hello");
}
~~~worksplit
"#;

    let files = extract_code_files(response);
    assert_eq!(files.len(), 1);
    assert_eq!(files[0].path, Some(String::from("src/main.rs")));
    assert!(files[0].content.contains("fn main()"));
}

#[test]
fn extract_test_extract_code_files_backward_compat_no_path() {
    let response = r#"
~~~worksplit rust
fn main() {
    println!("Hello");
}
~~~worksplit
"#;

    let files = extract_code_files(response);
    assert_eq!(files.len(), 1);
    assert_eq!(files[0].path, None);
    assert!(files[0].content.contains("fn main()"));
}

#[test]
fn extract_test_extract_code_files_fallback_to_backticks() {
    let response = r#"Here's the code:

```rust
fn main() {
    println!("Hello");
}
```

That's it!"#;

    let files = extract_code_files(response);
    assert_eq!(files.len(), 1);
    assert_eq!(files[0].path, None);
    assert!(files[0].content.contains("fn main()"));
}

#[test]
fn extract_test_extract_code_files_case_insensitive() {
    let response = r#"
~~~WORKSPLIT:src/main.rs
fn main() {}
~~~WORKSPLIT
"#;

    let files = extract_code_files(response);
    assert_eq!(files.len(), 1);
    assert_eq!(files[0].path, Some(String::from("src/main.rs")));
}

#[test]
fn extract_test_extracted_file_constructors() {
    let with_path = ExtractedFile::with_path(String::from("test.rs"), "content".to_string());
    assert_eq!(with_path.path, Some(String::from("test.rs")));
    assert_eq!(with_path.content, "content");

    let default = ExtractedFile::default_path("content".to_string());
    assert_eq!(default.path, None);
    assert_eq!(default.content, "content");
}

#[test]
fn extract_test_assemble_sequential_creation_prompt_basic() {
    let prompt = assemble_sequential_creation_prompt(
        "You are a helpful assistant.",
        &[],
        &[],
        "Create a main function",
        "src/main.rs",
        &[],
    );

    assert!(prompt.contains("[SYSTEM]"));
    assert!(prompt.contains("You are a helpful assistant."));
    assert!(prompt.contains("[INSTRUCTIONS]"));
    assert!(prompt.contains("Create a main function"));
    assert!(prompt.contains("[CURRENT OUTPUT FILE]"));
    assert!(prompt.contains("Generate: src/main.rs"));
    assert!(!prompt.contains("[CONTEXT]"));
    assert!(!prompt.contains("[PREVIOUSLY GENERATED"));
    assert!(!prompt.contains("[REMAINING FILES]"));
}

#[test]
fn extract_test_assemble_sequential_creation_prompt_with_context() {
    let context_files = vec![
        (String::from("src/lib.rs"), "pub mod models;".to_string()),
    ];

    let prompt = assemble_sequential_creation_prompt(
        "System prompt",
        &context_files,
        &[],
        "Create models",
        "src/models.rs",
        &[],
    );

    assert!(prompt.contains("[CONTEXT]"));
    assert!(prompt.contains("### File: src/lib.rs"));
    assert!(prompt.contains("pub mod models;"));
}

#[test]
fn extract_test_assemble_sequential_creation_prompt_with_previously_generated() {
    let previously_generated = vec![
        (String::from("src/main.rs"), "fn main() {}".to_string()),
        (String::from("src/lib.rs"), "pub mod utils;".to_string()),
    ];

    let prompt = assemble_sequential_creation_prompt(
        "System prompt",
        &[],
        &previously_generated,
        "Create utils",
        "src/utils.rs",
        &[],
    );

    assert!(prompt.contains("[PREVIOUSLY GENERATED IN THIS JOB]"));
    assert!(prompt.contains("### File: src/main.rs"));
    assert!(prompt.contains("fn main() {}"));
    assert!(prompt.contains("### File: src/lib.rs"));
    assert!(prompt.contains("pub mod utils;"));
    assert!(prompt.contains("Use them as reference for consistency"));
}

#[test]
fn extract_test_assemble_sequential_creation_prompt_with_remaining_files() {
    let remaining: Vec<String> = vec![
        String::from("src/models.rs"),
        String::from("src/services.rs"),
    ];

    let prompt = assemble_sequential_creation_prompt(
        "System prompt",
        &[],
        &[],
        "Create main",
        "src/main.rs",
        &remaining,
    );

    assert!(prompt.contains("[REMAINING FILES]"));
    assert!(prompt.contains("These files will be generated after this one:"));
    assert!(prompt.contains("- src/models.rs"));
    assert!(prompt.contains("- src/services.rs"));
    assert!(prompt.contains("Consider their requirements when designing interfaces"));
}

#[test]
fn extract_test_assemble_sequential_creation_prompt_full() {
    let context = vec![
        (String::from("src/types.rs"), "pub struct Config {}".to_string()),
    ];
    let previously_generated = vec![
        (String::from("src/main.rs"), "fn main() {}".to_string()),
    ];
    let remaining: Vec<String> = vec![
        String::from("src/utils.rs"),
    ];

    let prompt = assemble_sequential_creation_prompt(
        "System prompt",
        &context,
        &previously_generated,
        "Create the runner module",
        "src/runner.rs",
        &remaining,
    );

    assert!(prompt.contains("[SYSTEM]"));
    assert!(prompt.contains("[CONTEXT]"));
    assert!(prompt.contains("[PREVIOUSLY GENERATED IN THIS JOB]"));
    assert!(prompt.contains("[INSTRUCTIONS]"));
    assert!(prompt.contains("[CURRENT OUTPUT FILE]"));
    assert!(prompt.contains("[REMAINING FILES]"));
    
    let system_pos = prompt.find("[SYSTEM]").unwrap();
    let context_pos = prompt.find("[CONTEXT]").unwrap();
    let prev_pos = prompt.find("[PREVIOUSLY GENERATED").unwrap();
    let instructions_pos = prompt.find("[INSTRUCTIONS]").unwrap();
    let current_pos = prompt.find("[CURRENT OUTPUT FILE]").unwrap();
    let remaining_pos = prompt.find("[REMAINING FILES]").unwrap();

    assert!(system_pos < context_pos);
    assert!(context_pos < prev_pos);
    assert!(prev_pos < instructions_pos);
    assert!(instructions_pos < current_pos);
    assert!(current_pos < remaining_pos);
}

#[test]
fn extract_test_extract_path_as_heading_single() {
    let response = r#"Here is the code:

src/main.rs
```rust
fn main() {
    println!("Hello");
}
```

Done."#;
    let files = extract_code_files(response);
    assert_eq!(files.len(), 1);
    assert_eq!(files[0].path, Some(String::from("src/main.rs")));
    assert!(files[0].content.contains("fn main()"));
}

#[test]
fn extract_test_extract_path_as_heading_multiple() {
    let response = r#"Generated files:

src/lib.rs
```rust
pub mod utils;
```

src/utils.rs
```rust
pub fn helper() -> i32 {
    42
}
```

All done."#;
    let files = extract_code_files(response);
    assert_eq!(files.len(), 2);
    assert_eq!(files[0].path, Some(String::from("src/lib.rs")));
    assert_eq!(files[1].path, Some(String::from("src/utils.rs")));
}

#[test]
fn extract_test_extract_path_as_heading_without_language() {
    let response = r#"
config.toml
```
[package]
name = "test"
```
"#;
    let files = extract_code_files(response);
    assert_eq!(files.len(), 1);
    assert_eq!(files[0].path, Some(String::from("config.toml")));
}

#[test]
fn extract_test_worksplit_preferred_over_path_heading() {
    let response = r#"
~~~worksplit:src/preferred.rs
fn preferred() {}
~~~worksplit

src/ignored.rs
```rust
fn ignored() {}
```
"#;
    let files = extract_code_files(response);
    assert_eq!(files.len(), 1);
    assert_eq!(files[0].path, Some(String::from("src/preferred.rs")));
    assert!(files[0].content.contains("preferred"));
}

