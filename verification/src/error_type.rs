//! The kinds of error that an automatic fix answers.

use vstd::prelude::*;

verus! {

/// The kind of error that set off an automatic fix.
#[derive(Debug, Clone, Copy, PartialEq, Eq, Structural)]
pub enum ErrorType {
    /// The build failed.
    Build,
    /// A test failed.
    Test,
    /// The linter complained.
    Lint,
}

impl ErrorType {
    /// The name as it is shown.
    pub open spec fn shown(self) -> Seq<char> {
        match self {
            ErrorType::Build => "Build"@,
            ErrorType::Test => "Test"@,
            ErrorType::Lint => "Lint"@,
        }
    }

    /// The name in lower case.
    pub open spec fn shown_lower(self) -> Seq<char> {
        match self {
            ErrorType::Build => "build"@,
            ErrorType::Test => "test"@,
            ErrorType::Lint => "lint"@,
        }
    }

    /// The heading of the errors in a fix prompt.
    pub open spec fn header(self) -> Seq<char> {
        match self {
            ErrorType::Build => "## Build/Compilation Errors"@,
            ErrorType::Test => "## Test Failures"@,
            ErrorType::Lint => "## Linter Errors"@,
        }
    }

    /// What a fix prompt asks for.
    pub open spec fn instructions(self) -> Seq<char> {
        match self {
            ErrorType::Build => "Fix the compilation errors. Focus on type mismatches, missing imports, and syntax errors."@,
            ErrorType::Test => "Fix the test failures. Focus on assertion logic, test setup, and expected values."@,
            ErrorType::Lint => "Fix the linter errors. Focus on unused variables, missing type annotations, and style issues."@,
        }
    }

    pub fn name(&self) -> (r: &'static str)
        ensures
            r@ == self.shown(),
    {
        match self {
            ErrorType::Build => "Build",
            ErrorType::Test => "Test",
            ErrorType::Lint => "Lint",
        }
    }

    pub fn lowercase_name(&self) -> (r: &'static str)
        ensures
            r@ == self.shown_lower(),
    {
        match self {
            ErrorType::Build => "build",
            ErrorType::Test => "test",
            ErrorType::Lint => "lint",
        }
    }

    pub fn prompt_header(&self) -> (r: &'static str)
        ensures
            r@ == self.header(),
    {
        match self {
            ErrorType::Build => "## Build/Compilation Errors",
            ErrorType::Test => "## Test Failures",
            ErrorType::Lint => "## Linter Errors",
        }
    }

    pub fn fix_instructions(&self) -> (r: &'static str)
        ensures
            r@ == self.instructions(),
    {
        match self {
            ErrorType::Build => "Fix the compilation errors. Focus on type mismatches, missing imports, and syntax errors.",
            ErrorType::Test => "Fix the test failures. Focus on assertion logic, test setup, and expected values.",
            ErrorType::Lint => "Fix the linter errors. Focus on unused variables, missing type annotations, and style issues.",
        }
    }
}

} // verus!
