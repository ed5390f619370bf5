//! What a new project is set up with, language by language: the system
//! prompts, the instructions for writing job files, the configuration, and
//! two job files as examples.

pub mod rust;
pub mod typescript;

use crate::language::Language;
use vstd::prelude::*;

verus! {

/// What a new project is set up with.
#[derive(Debug, Clone, Copy)]
pub struct Templates {
    /// The system prompt for generating code.
    pub create_prompt: &'static str,
    /// The system prompt for verifying code.
    pub verify_prompt: &'static str,
    /// The system prompt for generating tests.
    pub test_prompt: &'static str,
    /// How to write job files for the project.
    pub manager_instruction: &'static str,
    /// The configuration file.
    pub config: &'static str,
    /// A job file as an example.
    pub example_job: &'static str,
    /// A job file as an example of a job with a test.
    pub tdd_example_job: &'static str,
}

/// What a new project in the given language is set up with.
pub fn get_templates(language: Language) -> (r: Templates)
    ensures
        language == Language::Rust ==> r.create_prompt@ == rust::CREATE_PROMPT@ && r.verify_prompt@
            == rust::VERIFY_PROMPT@ && r.test_prompt@ == rust::TEST_PROMPT@
            && r.manager_instruction@ == rust::MANAGER_INSTRUCTION@ && r.config@ == rust::CONFIG@
            && r.example_job@ == rust::EXAMPLE_JOB@ && r.tdd_example_job@
            == rust::TDD_EXAMPLE_JOB@,
        language == Language::Typescript ==> r.create_prompt@ == typescript::CREATE_PROMPT@
            && r.verify_prompt@ == typescript::VERIFY_PROMPT@ && r.test_prompt@
            == typescript::TEST_PROMPT@ && r.manager_instruction@
            == typescript::MANAGER_INSTRUCTION@ && r.config@ == typescript::CONFIG@
            && r.example_job@ == typescript::EXAMPLE_JOB@ && r.tdd_example_job@
            == typescript::TDD_EXAMPLE_JOB@,
{
    match language {
        Language::Rust => rust::templates(),
        Language::Typescript => typescript::templates(),
    }
}

} // verus!
