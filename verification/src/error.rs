//! The errors of the library, and what each of them says.

use crate::config::ConfigError;
use crate::job::JobValidationError;
use crate::text::{
    append_decimal, append_number, append_str, chars_of, contains, contains_text, decimal, lines,
    lines_of, rows, string_of,
};
use vstd::prelude::*;

verus! {

/// What a suggestion is about.
#[derive(Debug, Clone, Copy, PartialEq, Eq, Structural)]
pub enum SuggestionCategory {
    Whitespace,
    CaseSensitivity,
    ContextSize,
    ModeChoice,
    LineReference,
}

/// A suggestion on how to mend a failed edit.
#[derive(Debug, Clone, PartialEq, Eq)]
pub struct EditSuggestion {
    pub message: String,
    /// 1 for what most likely helps.
    pub priority: u8,
    pub category: SuggestionCategory,
}

/// What can go wrong with a job file. Each with the file's path.
#[derive(Debug, Clone, PartialEq, Eq)]
pub enum JobParseError {
    /// The file could not be read; with the reason.
    ReadError(String, String),
    /// The declaration at the head of the file could not be read.
    FrontmatterError(String, String),
    /// The declaration lacks a field.
    MissingField(String, String),
    /// The declaration is no valid YAML.
    YamlError(String, String),
}

/// What can go wrong with the status records.
#[derive(Debug, Clone, PartialEq, Eq)]
pub enum StatusError {
    /// The status file at the path could not be read; with the reason.
    ReadError(String, String),
    /// The status file at the path could not be written; with the reason.
    WriteError(String, String),
    /// The status file at the path does not hold a list of records; with
    /// the reason.
    ParseError(String, String),
    /// No record is kept of the job.
    JobNotFound(String),
}

/// What can go wrong with a call of the generator.
#[derive(Debug, Clone, PartialEq, Eq)]
pub enum OllamaError {
    ConnectionRefused(String),
    /// No answer within so many seconds.
    Timeout(u64),
    HttpError { status: u16, message: String },
    ParseError(String),
    RequestFailed(String),
    StreamError(String),
    /// The model thought for so long and gave no output.
    ThinkingTimeout { duration_secs: u64, thinking_tokens: usize },
}

fn two_part(a: &str, b: &str) -> (r: String)
    ensures
        r@ == a@ + b@,
{
    let mut out: Vec<char> = Vec::new();
    append_str(&mut out, a);
    append_str(&mut out, b);
    assert(out@ =~= a@ + b@);
    string_of(&out)
}

fn four_part(a: &str, b: &str, c: &str, d: &str) -> (r: String)
    ensures
        r@ == a@ + b@ + c@ + d@,
{
    let mut out: Vec<char> = Vec::new();
    append_str(&mut out, a);
    append_str(&mut out, b);
    append_str(&mut out, c);
    append_str(&mut out, d);
    assert(out@ =~= a@ + b@ + c@ + d@);
    string_of(&out)
}

impl JobParseError {
    /// What the error says.
    pub open spec fn text(self) -> Seq<char> {
        match self {
            JobParseError::ReadError(path, reason) => "Failed to read job file "@ + path@ + ": "@
                + reason@,
            JobParseError::FrontmatterError(path, reason) => "Failed to parse frontmatter in "@
                + path@ + ": "@ + reason@,
            JobParseError::MissingField(path, field) => "Missing required field in "@ + path@
                + ": "@ + field@,
            JobParseError::YamlError(path, reason) => "Invalid YAML in "@ + path@ + ": "@ + reason@,
        }
    }

    /// What the error says.
    pub fn message(&self) -> (r: String)
        ensures
            r@ == self.text(),
    {
        match self {
            JobParseError::ReadError(path, reason) => four_part(
                "Failed to read job file ",
                path.as_str(),
                ": ",
                reason.as_str(),
            ),
            JobParseError::FrontmatterError(path, reason) => four_part(
                "Failed to parse frontmatter in ",
                path.as_str(),
                ": ",
                reason.as_str(),
            ),
            JobParseError::MissingField(path, field) => four_part(
                "Missing required field in ",
                path.as_str(),
                ": ",
                field.as_str(),
            ),
            JobParseError::YamlError(path, reason) => four_part(
                "Invalid YAML in ",
                path.as_str(),
                ": ",
                reason.as_str(),
            ),
        }
    }
}

impl StatusError {
    /// What the error says.
    pub open spec fn text(self) -> Seq<char> {
        match self {
            StatusError::ReadError(path, reason) => "Failed to read status file "@ + path@ + ": "@
                + reason@,
            StatusError::WriteError(path, reason) => "Failed to write status file "@ + path@
                + ": "@ + reason@,
            StatusError::ParseError(path, reason) => "Failed to parse status file "@ + path@
                + ": "@ + reason@,
            StatusError::JobNotFound(id) => "Job not found in status file: "@ + id@,
        }
    }

    /// What the error says.
    pub fn message(&self) -> (r: String)
        ensures
            r@ == self.text(),
    {
        match self {
            StatusError::ReadError(path, reason) => four_part(
                "Failed to read status file ",
                path.as_str(),
                ": ",
                reason.as_str(),
            ),
            StatusError::WriteError(path, reason) => four_part(
                "Failed to write status file ",
                path.as_str(),
                ": ",
                reason.as_str(),
            ),
            StatusError::ParseError(path, reason) => four_part(
                "Failed to parse status file ",
                path.as_str(),
                ": ",
                reason.as_str(),
            ),
            StatusError::JobNotFound(id) => two_part("Job not found in status file: ", id.as_str()),
        }
    }
}

impl OllamaError {
    /// What the error says.
    pub open spec fn text(self) -> Seq<char> {
        match self {
            OllamaError::ConnectionRefused(reason) => "Connection refused: "@ + reason@,
            OllamaError::Timeout(seconds) => "Request timeout after "@ + decimal(seconds as nat)
                + " seconds"@,
            OllamaError::HttpError { status, message } => "HTTP error: "@ + decimal(status as nat)
                + " - "@ + message@,
            OllamaError::ParseError(reason) => "Failed to parse response: "@ + reason@,
            OllamaError::RequestFailed(reason) => "Request failed: "@ + reason@,
            OllamaError::StreamError(reason) => "Stream error: "@ + reason@,
            OllamaError::ThinkingTimeout {
                duration_secs,
                thinking_tokens,
            } => "SYSTEM PROMPT ERROR: Model stuck in thinking loop for "@ + decimal(
                duration_secs as nat,
            ) + "s ("@ + decimal(thinking_tokens as nat)
                + " thinking tokens, 0 output). Adjust system prompt to prevent over-analysis."@,
        }
    }

    /// What the error says.
    pub fn message(&self) -> (r: String)
        ensures
            r@ == self.text(),
    {
        let mut out: Vec<char> = Vec::new();
        match self {
            OllamaError::ConnectionRefused(reason) => {
                append_str(&mut out, "Connection refused: ");
                append_str(&mut out, reason.as_str());
            },
            OllamaError::Timeout(seconds) => {
                append_str(&mut out, "Request timeout after ");
                append_number(&mut out, *seconds);
                append_str(&mut out, " seconds");
            },
            OllamaError::HttpError { status, message } => {
                append_str(&mut out, "HTTP error: ");
                append_number(&mut out, *status as u64);
                append_str(&mut out, " - ");
                append_str(&mut out, message.as_str());
            },
            OllamaError::ParseError(reason) => {
                append_str(&mut out, "Failed to parse response: ");
                append_str(&mut out, reason.as_str());
            },
            OllamaError::RequestFailed(reason) => {
                append_str(&mut out, "Request failed: ");
                append_str(&mut out, reason.as_str());
            },
            OllamaError::StreamError(reason) => {
                append_str(&mut out, "Stream error: ");
                append_str(&mut out, reason.as_str());
            },
            OllamaError::ThinkingTimeout { duration_secs, thinking_tokens } => {
                append_str(&mut out, "SYSTEM PROMPT ERROR: Model stuck in thinking loop for ");
                append_number(&mut out, *duration_secs);
                append_str(&mut out, "s (");
                append_decimal(&mut out, *thinking_tokens);
                append_str(
                    &mut out,
                    " thinking tokens, 0 output). Adjust system prompt to prevent over-analysis.",
                );
            },
        }
        assert(out@ =~= self.text());
        string_of(&out)
    }
}

/// The errors of the library.
#[derive(Debug, Clone, PartialEq, Eq)]
pub enum WorkSplitError {
    Config(ConfigError),
    JobValidation(JobValidationError),
    JobParsing(JobParseError),
    Status(StatusError),
    Ollama(OllamaError),
    /// The build command failed; with what it printed.
    BuildFailed { command: String, output: String },
    FileTooLarge { path: String, lines: usize, limit: usize, suggestion: String },
    CyclicDependency,
    /// Reading or writing failed; with the reason.
    Io(String),
    JobsFolderNotFound(String),
    SystemPromptNotFound(String),
    ContextFileNotFound(String),
    ContextFileTooLarge { path: String, lines: usize, max: usize },
    OutputTooLarge { lines: usize, max: usize },
    TokenBudgetExceeded { estimated: usize, max: usize },
    /// An edit failed; with suggestions, and with the lines that resemble
    /// the find text: of each the file, the line and the likeness in
    /// percent.
    EditFailedWithSuggestions {
        message: String,
        suggestions: Vec<EditSuggestion>,
        fuzzy_matches: Vec<(String, usize, u8)>,
    },
    EditFailed(String),
    ProtectedPathViolation(String),
    InvalidJobName(String),
    JobAlreadyExists(String),
}

impl WorkSplitError {
    /// What the error says.
    pub open spec fn text(self) -> Seq<char> {
        match self {
            WorkSplitError::Config(e) => "Configuration error: "@ + e.text(),
            WorkSplitError::JobValidation(e) => "Job validation error: "@ + e.text(),
            WorkSplitError::JobParsing(e) => "Job parsing error: "@ + e.text(),
            WorkSplitError::Status(e) => "Status file error: "@ + e.text(),
            WorkSplitError::Ollama(e) => "Ollama error: "@ + e.text(),
            WorkSplitError::BuildFailed { command, output } => "Build failed for "@ + command@
                + ":\n"@ + output@,
            WorkSplitError::FileTooLarge { path, lines, limit, suggestion } => "File too large: "@
                + path@ + " has "@ + decimal(lines as nat) + " lines (max: "@ + decimal(
                limit as nat,
            ) + ")\n\nManager action required:\n"@ + suggestion@,
            WorkSplitError::CyclicDependency => "Cyclic dependency detected in job files. Check depends_on for cycles."@,
            WorkSplitError::Io(reason) => "IO error: "@ + reason@,
            WorkSplitError::JobsFolderNotFound(path) => "Jobs folder not found at "@ + path@,
            WorkSplitError::SystemPromptNotFound(path) => "System prompt not found: "@ + path@,
            WorkSplitError::ContextFileNotFound(path) => "Context file not found: "@ + path@,
            WorkSplitError::ContextFileTooLarge { path, lines, max } => "Context file too large: "@
                + path@ + " has "@ + decimal(lines as nat) + " lines (max: "@ + decimal(max as nat)
                + ")"@,
            WorkSplitError::OutputTooLarge { lines, max } => "Output exceeded line limit: "@
                + decimal(lines as nat) + " lines (max: "@ + decimal(max as nat) + ")"@,
            WorkSplitError::TokenBudgetExceeded {
                estimated,
                max,
            } => "Token budget exceeded: estimated "@ + decimal(estimated as nat)
                + " tokens (max: "@ + decimal(max as nat) + ")"@,
            WorkSplitError::EditFailedWithSuggestions { message, suggestions, fuzzy_matches } => "Edit failed: "@
                + message@,
            WorkSplitError::EditFailed(reason) => "Edit failed: "@ + reason@,
            WorkSplitError::ProtectedPathViolation(path) => "Cannot write to protected path: "@
                + path@,
            WorkSplitError::InvalidJobName(reason) => "Invalid job name: "@ + reason@,
            WorkSplitError::JobAlreadyExists(name) => "Job already exists: "@ + name@,
        }
    }

    /// What the error says.
    pub fn message(&self) -> (r: String)
        ensures
            r@ == self.text(),
    {
        let mut out: Vec<char> = Vec::new();
        match self {
            WorkSplitError::Config(e) => {
                append_str(&mut out, "Configuration error: ");
                append_str(&mut out, e.message().as_str());
            },
            WorkSplitError::JobValidation(e) => {
                append_str(&mut out, "Job validation error: ");
                append_str(&mut out, e.message().as_str());
            },
            WorkSplitError::JobParsing(e) => {
                append_str(&mut out, "Job parsing error: ");
                append_str(&mut out, e.message().as_str());
            },
            WorkSplitError::Status(e) => {
                append_str(&mut out, "Status file error: ");
                append_str(&mut out, e.message().as_str());
            },
            WorkSplitError::Ollama(e) => {
                append_str(&mut out, "Ollama error: ");
                append_str(&mut out, e.message().as_str());
            },
            WorkSplitError::BuildFailed { command, output } => {
                append_str(&mut out, "Build failed for ");
                append_str(&mut out, command.as_str());
                append_str(&mut out, ":\n");
                append_str(&mut out, output.as_str());
            },
            WorkSplitError::FileTooLarge { path, lines, limit, suggestion } => {
                append_str(&mut out, "File too large: ");
                append_str(&mut out, path.as_str());
                append_str(&mut out, " has ");
                append_decimal(&mut out, *lines);
                append_str(&mut out, " lines (max: ");
                append_decimal(&mut out, *limit);
                append_str(&mut out, ")\n\nManager action required:\n");
                append_str(&mut out, suggestion.as_str());
            },
            WorkSplitError::CyclicDependency => append_str(
                &mut out,
                "Cyclic dependency detected in job files. Check depends_on for cycles.",
            ),
            WorkSplitError::Io(reason) => {
                append_str(&mut out, "IO error: ");
                append_str(&mut out, reason.as_str());
            },
            WorkSplitError::JobsFolderNotFound(path) => {
                append_str(&mut out, "Jobs folder not found at ");
                append_str(&mut out, path.as_str());
            },
            WorkSplitError::SystemPromptNotFound(path) => {
                append_str(&mut out, "System prompt not found: ");
                append_str(&mut out, path.as_str());
            },
            WorkSplitError::ContextFileNotFound(path) => {
                append_str(&mut out, "Context file not found: ");
                append_str(&mut out, path.as_str());
            },
            WorkSplitError::ContextFileTooLarge { path, lines, max } => {
                append_str(&mut out, "Context file too large: ");
                append_str(&mut out, path.as_str());
                append_str(&mut out, " has ");
                append_decimal(&mut out, *lines);
                append_str(&mut out, " lines (max: ");
                append_decimal(&mut out, *max);
                append_str(&mut out, ")");
            },
            WorkSplitError::OutputTooLarge { lines, max } => {
                append_str(&mut out, "Output exceeded line limit: ");
                append_decimal(&mut out, *lines);
                append_str(&mut out, " lines (max: ");
                append_decimal(&mut out, *max);
                append_str(&mut out, ")");
            },
            WorkSplitError::TokenBudgetExceeded { estimated, max } => {
                append_str(&mut out, "Token budget exceeded: estimated ");
                append_decimal(&mut out, *estimated);
                append_str(&mut out, " tokens (max: ");
                append_decimal(&mut out, *max);
                append_str(&mut out, ")");
            },
            WorkSplitError::EditFailedWithSuggestions { message, suggestions, fuzzy_matches } => {
                append_str(&mut out, "Edit failed: ");
                append_str(&mut out, message.as_str());
            },
            WorkSplitError::EditFailed(reason) => {
                append_str(&mut out, "Edit failed: ");
                append_str(&mut out, reason.as_str());
            },
            WorkSplitError::ProtectedPathViolation(path) => {
                append_str(&mut out, "Cannot write to protected path: ");
                append_str(&mut out, path.as_str());
            },
            WorkSplitError::InvalidJobName(reason) => {
                append_str(&mut out, "Invalid job name: ");
                append_str(&mut out, reason.as_str());
            },
            WorkSplitError::JobAlreadyExists(name) => {
                append_str(&mut out, "Job already exists: ");
                append_str(&mut out, name.as_str());
            },
        }
        assert(out@ =~= self.text());
        string_of(&out)
    }
}

/// The texts of a list of suggestions, with what each is about and how
/// likely it helps.
pub open spec fn suggestion_views(s: Seq<EditSuggestion>) -> Seq<(Seq<char>, u8, SuggestionCategory)> {
    Seq::new(s.len(), |i: int| (s[i].message@, s[i].priority, s[i].category))
}

/// The suggestion made for a line that resembles the find text, where the
/// likeness is at least 70 percent.
pub open spec fn line_suggestions(ms: Seq<(String, usize, u8)>) -> Seq<(Seq<char>, u8, SuggestionCategory)>
    decreases ms.len(),
{
    if ms.len() == 0 {
        Seq::empty()
    } else {
        let before = line_suggestions(ms.drop_last());
        let m = ms.last();
        if m.2 >= 70 {
            before.push(
                (
                    "Possible match at "@ + m.0@ + ":"@ + decimal(m.1 as nat) + " ("@
                        + decimal(m.2 as nat) + "% similar)"@,
                    3u8,
                    SuggestionCategory::LineReference,
                ),
            )
        } else {
            before
        }
    }
}

/// The suggestions for a failed edit, the likeliest first:
/// - to check the white space, where the message speaks of it or the find
///   text matched modulo white space;
/// - to give more context, where the find text has fewer than three lines;
/// - to generate the file anew, where the job has more than ten edits;
/// - the lines that resemble the find text.
pub open spec fn edit_suggestions(
    message: Seq<char>,
    file_path: Seq<char>,
    find_text: Seq<char>,
    edit_count: usize,
    has_fuzzy_match: bool,
    fuzzy_matches: Seq<(String, usize, u8)>,
) -> Seq<(Seq<char>, u8, SuggestionCategory)> {
    (if contains(message, "whitespace"@) || has_fuzzy_match {
        seq![
            (
                "Check whitespace: "@ + file_path
                    + " may use different indentation (spaces vs tabs, indent level)"@,
                1u8,
                SuggestionCategory::Whitespace,
            ),
        ]
    } else {
        Seq::empty()
    }) + (if lines(find_text).len() < 3 {
        seq![
            (
                "Include more context: FIND text is too short, add surrounding lines for uniqueness"@,
                1u8,
                SuggestionCategory::ContextSize,
            ),
        ]
    } else {
        Seq::empty()
    }) + (if edit_count > 10 {
        seq![
            (
                "Consider replace mode: this job has "@ + decimal(edit_count as nat)
                    + " edits, replace mode is safer for 10+ edits"@,
                2u8,
                SuggestionCategory::ModeChoice,
            ),
        ]
    } else {
        Seq::empty()
    }) + line_suggestions(fuzzy_matches)
}

/// The numbered list of the suggestions, one a line.
pub open spec fn numbered_suggestions(s: Seq<EditSuggestion>) -> Seq<char>
    decreases s.len(),
{
    if s.len() == 0 {
        Seq::empty()
    } else {
        numbered_suggestions(s.drop_last()) + "  "@ + decimal(s.len()) + ". "@ + s.last().message@
            + "\n"@
    }
}

impl WorkSplitError {
    /// The error as it is shown: a failed edit with its suggestions in a
    /// numbered list, any other error by what it says.
    pub open spec fn shown(self) -> Seq<char> {
        match self {
            WorkSplitError::EditFailedWithSuggestions { message, suggestions, fuzzy_matches } => "Error: Edit failed: "@
                + message@ + "\n"@ + (if suggestions@.len() > 0 {
                "\nSuggestions:\n"@ + numbered_suggestions(suggestions@)
            } else {
                Seq::empty()
            }),
            _ => "Error: "@ + self.text(),
        }
    }

    /// The error of a failed edit, with suggestions on how to mend it.
    pub fn edit_failed_with_context(
        message: String,
        file_path: &str,
        find_text: &str,
        edit_count: usize,
        has_fuzzy_match: bool,
        fuzzy_matches: Vec<(String, usize, u8)>,
    ) -> (r: Self)
        ensures
            r matches WorkSplitError::EditFailedWithSuggestions {
                message: m,
                suggestions: s,
                fuzzy_matches: f,
            } && m == message && f == fuzzy_matches && suggestion_views(s@) == edit_suggestions(
                message@,
                file_path@,
                find_text@,
                edit_count,
                has_fuzzy_match,
                fuzzy_matches@,
            ),
    {
        let mut suggestions: Vec<EditSuggestion> = Vec::new();
        let ghost expected = edit_suggestions(
            message@,
            file_path@,
            find_text@,
            edit_count,
            has_fuzzy_match,
            fuzzy_matches@,
        );
        if contains_text(&chars_of(message.as_str()), &chars_of("whitespace")) || has_fuzzy_match {
            let mut text: Vec<char> = Vec::new();
            append_str(&mut text, "Check whitespace: ");
            append_str(&mut text, file_path);
            append_str(&mut text, " may use different indentation (spaces vs tabs, indent level)");
            assert(text@ =~= "Check whitespace: "@ + file_path@
                + " may use different indentation (spaces vs tabs, indent level)"@);
            suggestions.push(
                EditSuggestion {
                    message: string_of(&text),
                    priority: 1,
                    category: SuggestionCategory::Whitespace,
                },
            );
        }
        let ls = lines_of(&chars_of(find_text));
        assert(rows(ls@).len() == ls@.len());
        if ls.len() < 3 {
            suggestions.push(
                EditSuggestion {
                    message: "Include more context: FIND text is too short, add surrounding lines for uniqueness".to_owned(),
                    priority: 1,
                    category: SuggestionCategory::ContextSize,
                },
            );
        }
        if edit_count > 10 {
            let mut text: Vec<char> = Vec::new();
            append_str(&mut text, "Consider replace mode: this job has ");
            append_decimal(&mut text, edit_count);
            append_str(&mut text, " edits, replace mode is safer for 10+ edits");
            assert(text@ =~= "Consider replace mode: this job has "@ + decimal(edit_count as nat)
                + " edits, replace mode is safer for 10+ edits"@);
            suggestions.push(
                EditSuggestion {
                    message: string_of(&text),
                    priority: 2,
                    category: SuggestionCategory::ModeChoice,
                },
            );
        }
        let ghost head = suggestion_views(suggestions@);
        assert(head + line_suggestions(fuzzy_matches@) =~= expected);
        let mut i: usize = 0;
        assert(head + line_suggestions(fuzzy_matches@.take(0)) =~= head);
        while i < fuzzy_matches.len()
            invariant
                i <= fuzzy_matches.len(),
                suggestion_views(suggestions@) == head + line_suggestions(
                    fuzzy_matches@.take(i as int),
                ),
            decreases fuzzy_matches.len() - i,
        {
            assert(fuzzy_matches@.take(i + 1).drop_last() == fuzzy_matches@.take(i as int));
            assert(fuzzy_matches@.take(i + 1).last() == fuzzy_matches@[i as int]);
            if fuzzy_matches[i].2 >= 70 {
                let mut text: Vec<char> = Vec::new();
                append_str(&mut text, "Possible match at ");
                append_str(&mut text, fuzzy_matches[i].0.as_str());
                append_str(&mut text, ":");
                append_decimal(&mut text, fuzzy_matches[i].1);
                append_str(&mut text, " (");
                append_number(&mut text, fuzzy_matches[i].2 as u64);
                append_str(&mut text, "% similar)");
                let ghost m = fuzzy_matches@[i as int];
                assert(text@ =~= "Possible match at "@ + m.0@ + ":"@ + decimal(m.1 as nat)
                    + " ("@ + decimal(m.2 as nat) + "% similar)"@);
                let s = EditSuggestion {
                    message: string_of(&text),
                    priority: 3,
                    category: SuggestionCategory::LineReference,
                };
                assert(suggestion_views(suggestions@.push(s)) =~= suggestion_views(
                    suggestions@,
                ).push((s.message@, s.priority, s.category)));
                suggestions.push(s);
            }
            i += 1;
            assert(suggestion_views(suggestions@) =~= head + line_suggestions(
                fuzzy_matches@.take(i as int),
            ));
        }
        assert(fuzzy_matches@.take(fuzzy_matches.len() as int) == fuzzy_matches@);
        WorkSplitError::EditFailedWithSuggestions { message, suggestions, fuzzy_matches }
    }

    /// The error as it is shown.
    pub fn display_with_suggestions(&self) -> (r: String)
        ensures
            r@ == self.shown(),
    {
        let mut out: Vec<char> = Vec::new();
        match self {
            WorkSplitError::EditFailedWithSuggestions { message, suggestions, fuzzy_matches } => {
                append_str(&mut out, "Error: Edit failed: ");
                append_str(&mut out, message.as_str());
                append_str(&mut out, "\n");
                if suggestions.len() > 0 {
                    append_str(&mut out, "\nSuggestions:\n");
                    let ghost head = out@;
                    let mut i: usize = 0;
                    assert(out@ =~= head + numbered_suggestions(suggestions@.take(0)));
                    while i < suggestions.len()
                        invariant
                            i <= suggestions.len(),
                            out@ == head + numbered_suggestions(suggestions@.take(i as int)),
                        decreases suggestions.len() - i,
                    {
                        assert(suggestions@.take(i + 1).drop_last() == suggestions@.take(i as int));
                        assert(suggestions@.take(i + 1).last() == suggestions@[i as int]);
                        append_str(&mut out, "  ");
                        append_decimal(&mut out, i + 1);
                        append_str(&mut out, ". ");
                        append_str(&mut out, suggestions[i].message.as_str());
                        append_str(&mut out, "\n");
                        i += 1;
                        assert(out@ =~= head + numbered_suggestions(suggestions@.take(i as int)));
                    }
                    assert(suggestions@.take(suggestions.len() as int) == suggestions@);
                }
                assert(out@ =~= self.shown());
            },
            _ => {
                append_str(&mut out, "Error: ");
                append_str(&mut out, self.message().as_str());
                assert(out@ =~= self.shown());
            },
        }
        string_of(&out)
    }
}

} // verus!
