//! What a new Rust project is set up with.

use crate::templates::Templates;
use vstd::prelude::*;

verus! {

/// The system prompt for generating code.
pub const CREATE_PROMPT: &'static str = "# Rust Code Generation System Prompt\n\nYou are a code generation assistant specializing in Rust. Your task is to generate high-quality, idiomatic Rust code based on the provided context and instructions.\n\n## Guidelines\n\n1. **Output Format**: Output ONLY the code, wrapped in a markdown code fence with the `rust` language tag. Do not include explanations, comments about what you're doing, or any other text outside the code fence.\n\n2. **Line Limit**: Your output must not exceed 900 lines of code. If the task requires more, focus on the most critical functionality.\n\n3. **Code Style**: Follow Rust idioms and patterns from the context files provided. Match the existing conventions for:\n   - Naming (snake_case for functions/variables, CamelCase for types)\n   - Formatting and indentation (use rustfmt conventions)\n   - Error handling patterns (Result, Option, ? operator)\n   - Documentation style (/// for doc comments)\n\n4. **Imports**: Include all necessary `use` statements at the top of the file.\n\n5. **Documentation**: Add doc comments (`///`) for all public items (functions, structs, traits, enums).\n\n6. **Error Handling**: Use proper error handling with `Result` and `Option`. Prefer `?` operator. Avoid `unwrap()` in production code.\n\n7. **Ownership**: Respect Rust's ownership rules. Prefer borrowing over cloning when possible.\n\n8. **Testing**: If the context includes tests, maintain consistency with the testing patterns used (`#[cfg(test)]` module).\n\n## Response Format\n\nYour response should be ONLY a code fence containing the complete file content:\n\n";

/// The system prompt for verifying code.
pub const VERIFY_PROMPT: &'static str = "# Rust Code Verification System Prompt\n\nYou are a Rust code review assistant. Your task is to verify that the generated code meets the requirements and follows Rust best practices.\n\n## Verification Checklist\n\n1. **Syntax**: Is the code syntactically correct Rust?\n2. **Completeness**: Does the code implement all requirements from the instructions?\n3. **Correctness**: Does the logic appear correct? Are there any obvious bugs?\n4. **Ownership**: Are ownership, borrowing, and lifetimes handled correctly?\n5. **Error Handling**: Are `Result` and `Option` used appropriately? No unnecessary `unwrap()`?\n6. **Style Consistency**: Does the code follow Rust idioms and match context file patterns?\n7. **Documentation**: Are public items documented with `///` comments?\n8. **Safety**: Is there any unsafe code? If so, is it justified and documented?\n\n## Response Format\n\nYour response MUST start with either:\n\n- `PASS` - if the code meets all requirements\n- `FAIL: <reason>` - if the code has issues\n\nExamples:\n- `PASS`\n- `PASS - Code looks good, all requirements met.`\n- `FAIL: Missing error handling for database connection`\n- `FAIL: The get_user method is not implemented`\n- `FAIL: Using unwrap() without proper error handling`\n\nBe strict but fair. Minor style issues should not cause a failure if the code is functionally correct.\n";

/// The system prompt for generating tests.
pub const TEST_PROMPT: &'static str = "# Rust Test Generation System Prompt\n\nYou are a test generation assistant specializing in Rust. Your task is to generate comprehensive tests based on the provided requirements BEFORE the implementation exists.\n\n## TDD Approach\n\nYou are generating tests first (Test-Driven Development). The implementation does not exist yet. Your tests should:\n1. Define the expected behavior based on requirements\n2. Cover happy path scenarios\n3. Cover edge cases and error conditions\n4. Be runnable once the implementation is created\n\n## Guidelines\n\n1. **Output Format**: Output ONLY the test code, wrapped in a markdown code fence with the `rust` language tag.\n\n2. **Test Structure**: Use the standard Rust test structure:\n   ```rust\n   #[cfg(test)]\n   mod tests {\n       use super::*;\n       \n       #[test]\n       fn test_function_name() {\n           // Test body\n       }\n   }\n   ```\n\n3. **Test Coverage**: Generate tests for:\n   - All functions/methods mentioned in the requirements\n   - Input validation and edge cases\n   - Error handling scenarios (`Result::Err` paths)\n   - Boundary conditions\n\n4. **Assertions**: Use clear assertions:\n   - `assert_eq!()` for equality\n   - `assert_ne!()` for inequality\n   - `assert!()` for boolean conditions\n   - `assert!(result.is_ok())` / `assert!(result.is_err())` for Results\n\n5. **Test Names**: Use descriptive snake_case names:\n   - `test_greet_returns_hello_with_name`\n   - `test_greet_handles_empty_string`\n   - `test_divide_by_zero_returns_error`\n\n## Response Format\n\nYour response should be ONLY a code fence containing the complete test file:\n\n";

/// How to write job files for the project.
pub const MANAGER_INSTRUCTION: &'static str = "# Manager Instructions for Creating Rust Job Files\n\nThis file explains how to create job files for a Rust WorkSplit project.\n\n## Job File Format\n\nEach job file uses YAML frontmatter followed by markdown instructions:\n\n```yaml\n---\ncontext_files:\n  - src/models/user.rs\noutput_dir: src/services/\noutput_file: user_service.rs\n---\n```\n\n## Frontmatter Fields\n\n- `context_files`: List of Rust files to include as context (max 2, each under 1000 lines)\n- `output_dir`: Directory where the output `.rs` file should be created\n- `output_file`: Name of the Rust file to generate\n- `test_file`: Name of the test file to generate (for TDD workflow)\n\n## Rust-Specific Best Practices\n\n### 1. Keep Jobs Small\nEach job should generate at most 900 lines of Rust code. Break larger features into multiple jobs.\n\n### 2. Choose Context Files Wisely\nInclude files that:\n- Define structs/enums the generated code will use\n- Show trait implementations to follow\n- Contain error types to use\n- Show module patterns to match\n\n### 3. Write Clear Instructions\n- Be specific about what to implement\n- List required methods/functions explicitly  \n- Specify error handling expectations (which error types)\n- Mention any lifetimes or generics needed\n- Reference traits to implement\n\n### 4. Naming Convention\nUse descriptive job IDs with category prefix:\n- `auth_001_user_model.md`\n- `auth_002_session_service.md`\n- `db_001_connection_pool.md`\n\n### 5. Module Structure\nConsider module organization:\n- `mod.rs` files for re-exports\n- Feature modules grouped logically\n- Public API surface minimization\n\n## TDD Workflow\n\nTo enable Test-Driven Development, add the `test_file` field:\n\n```yaml\n---\ncontext_files: []\noutput_dir: src/\noutput_file: calculator.rs\ntest_file: calculator_test.rs\n---\n```\n\nWhen `test_file` is specified:\n1. Tests are generated FIRST based on requirements\n2. Implementation is then generated to pass tests\n3. Implementation is verified against requirements\n";

/// The configuration file that a new project gets.
pub const CONFIG: &'static str = "# WorkSplit Configuration\n\n[project]\nlanguage = \"rust\"\n\n[ollama]\nurl = \"http://localhost:11434\"\nmodel = \"qwen-32k:latest\"\ntimeout_seconds = 300\n\n[limits]\nmax_output_lines = 900\nmax_context_lines = 1000\nmax_context_files = 2\n\n[behavior]\nstream_output = true\ncreate_output_dirs = true\n\n[build]\nbuild_command = \"cargo check\"\ntest_command = \"cargo test\"\nverify_build = false\nverify_tests = false\n";

/// The job file that a new project gets as an example.
pub const EXAMPLE_JOB: &'static str = "---\ncontext_files: []\noutput_dir: src/\noutput_file: hello.rs\n---\n\n# Create Hello World Module\n\n## Requirements\n- Create a simple Rust module with a greeting function\n- The function should accept a name parameter\n- Return a formatted greeting string\n\n## Functions to Implement\n\n1. `greet(name: &str) -> String` - Returns \"Hello, {name}!\"\n2. `greet_with_time(name: &str, morning: bool) -> String` - Returns appropriate greeting based on time\n\n## Example Usage\n\n```rust\nlet greeting = greet(\"World\");\nassert_eq!(greeting, \"Hello, World!\");\n\nlet morning_greeting = greet_with_time(\"Alice\", true);\nassert_eq!(morning_greeting, \"Good morning, Alice!\");\n```\n";

/// The job file that a new project gets as an example of a job with a test.
pub const TDD_EXAMPLE_JOB: &'static str = "---\ncontext_files: []\noutput_dir: src/\noutput_file: calculator.rs\ntest_file: calculator_test.rs\n---\n\n# Create Calculator Module (TDD Example)\n\nThis job demonstrates TDD workflow - tests will be generated first!\n\n## Requirements\n- Create a calculator module with basic arithmetic operations\n- Support add, subtract, multiply, divide functions\n- Handle division by zero with Result type\n\n## Functions to Implement\n\n1. `add(a: i32, b: i32) -> i32` - Returns sum\n2. `subtract(a: i32, b: i32) -> i32` - Returns difference\n3. `multiply(a: i32, b: i32) -> i32` - Returns product\n4. `divide(a: i32, b: i32) -> Result<i32, &'static str>` - Returns quotient or error\n\n## Expected Behavior\n\n- `add(2, 3)` returns `5`\n- `subtract(5, 3)` returns `2`\n- `multiply(4, 5)` returns `20`\n- `divide(10, 2)` returns `Ok(5)`\n- `divide(10, 0)` returns `Err(\"division by zero\")`\n";

/// What a new Rust project is set up with.
pub fn templates() -> (r: Templates)
    ensures
        r.create_prompt@ == CREATE_PROMPT@,
        r.verify_prompt@ == VERIFY_PROMPT@,
        r.test_prompt@ == TEST_PROMPT@,
        r.manager_instruction@ == MANAGER_INSTRUCTION@,
        r.config@ == CONFIG@,
        r.example_job@ == EXAMPLE_JOB@,
        r.tdd_example_job@ == TDD_EXAMPLE_JOB@,
{
    Templates {
        create_prompt: CREATE_PROMPT,
        verify_prompt: VERIFY_PROMPT,
        test_prompt: TEST_PROMPT,
        manager_instruction: MANAGER_INSTRUCTION,
        config: CONFIG,
        example_job: EXAMPLE_JOB,
        tdd_example_job: TDD_EXAMPLE_JOB,
    }
}

} // verus!
