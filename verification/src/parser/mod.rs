//! Reading what the generator answers: files, verdicts and edit
//! instructions; and assembling what it is asked.

pub mod edit;
pub mod extract;
pub mod insert;
pub mod pattern;
pub mod prompts;
pub mod verdict;

use crate::status::JobStatus;
use vstd::prelude::*;

verus! {

/// A file read from an answer: where it goes, if the answer says so, and
/// what it holds. A file without path goes to the job's output path.
#[derive(Debug, Clone, PartialEq, Eq)]
pub struct ExtractedFile {
    pub path: Option<String>,
    pub content: String,
}

/// A file as texts.
pub struct FileView {
    pub path: Option<Seq<char>>,
    pub content: Seq<char>,
}

impl View for ExtractedFile {
    type V = FileView;

    open spec fn view(&self) -> FileView {
        FileView {
            path: match self.path {
                Some(p) => Some(p@),
                None => None,
            },
            content: self.content@,
        }
    }
}

/// The views of a sequence of files.
pub open spec fn file_views(files: Seq<ExtractedFile>) -> Seq<FileView> {
    Seq::new(files.len(), |i: int| files[i]@)
}

impl ExtractedFile {
    /// A file that goes to `path`.
    pub fn with_path(path: String, content: String) -> (r: Self)
        ensures
            r.path == Some(path),
            r.content == content,
    {
        ExtractedFile { path: Some(path), content }
    }

    /// A file that goes to the job's output path.
    pub fn default_path(content: String) -> (r: Self)
        ensures
            r.path is None,
            r.content == content,
    {
        ExtractedFile { path: None, content }
    }
}

/// The verdict of a verification, in four tiers.
#[derive(Debug, Clone, Copy, PartialEq, Eq, Structural)]
pub enum VerificationResult {
    Pass,
    PassWithWarnings,
    FailSoft,
    FailHard,
}

impl VerificationResult {
    /// The verdict lets the job pass.
    pub open spec fn passes(self) -> bool {
        self == VerificationResult::Pass || self == VerificationResult::PassWithWarnings
    }

    /// The job status that the verdict leads to.
    pub open spec fn job_status(self) -> JobStatus {
        if self.passes() {
            JobStatus::Pass
        } else {
            JobStatus::Fail
        }
    }

    pub fn is_pass(&self) -> (r: bool)
        ensures
            r == self.passes(),
    {
        matches!(self, VerificationResult::Pass | VerificationResult::PassWithWarnings)
    }

    pub fn is_hard_fail(&self) -> (r: bool)
        ensures
            r == (*self == VerificationResult::FailHard),
    {
        matches!(self, VerificationResult::FailHard)
    }

    pub fn to_job_status(&self) -> (r: JobStatus)
        ensures
            r == self.job_status(),
    {
        match self {
            VerificationResult::Pass | VerificationResult::PassWithWarnings => JobStatus::Pass,
            VerificationResult::FailSoft | VerificationResult::FailHard => JobStatus::Fail,
        }
    }
}

/// An instruction to insert text after each occurrence of a pattern.
#[derive(Debug, Clone, PartialEq, Eq)]
pub struct ReplacePatternInstruction {
    /// The text after which to insert.
    pub after_pattern: String,
    /// The text to insert.
    pub insert_text: String,
    /// The text that must open the block in which an occurrence counts.
    pub scope: Option<String>,
}

/// The insert instructions read from one answer, and the scope named last.
#[derive(Debug, Clone)]
pub struct ParsedReplacePatterns {
    pub instructions: Vec<ReplacePatternInstruction>,
    pub scope: Option<String>,
}

/// Where a struct literal stands in a source text, in bytes.
#[derive(Debug, Clone, Copy, PartialEq, Eq, Structural)]
pub struct StructLiteralMatch {
    /// Where the struct's name starts.
    pub start: usize,
    /// Where the literal ends, behind its closing brace.
    pub end: usize,
    /// Where the last field ends: behind the last comma at the literal's
    /// own level, or at the opening brace where there is none.
    pub last_field_end: usize,
    /// One more than the number of lines before the start, a begun line
    /// counted as a line.
    pub line_number: usize,
}

} // verus!
