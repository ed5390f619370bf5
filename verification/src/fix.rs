//! What came of fixing a job's files.

use crate::error_type::ErrorType;
use crate::text::{append, append_str, chars_of, string_of, trim, trim_of};
use vstd::prelude::*;

verus! {

/// What came of one fix.
#[derive(Debug)]
pub struct FixResult {
    pub success: bool,
    pub files_written: usize,
    pub error: Option<String>,
}

impl FixResult {
    /// A fix that wrote so many files.
    pub fn success(files_written: usize) -> (r: Self)
        ensures
            r.success,
            r.files_written == files_written,
            r.error is None,
    {
        FixResult { success: true, files_written, error: None }
    }

    /// A fix that failed.
    pub fn failure(error: String) -> (r: Self)
        ensures
            !r.success,
            r.files_written == 0,
            r.error == Some(error),
    {
        FixResult { success: false, files_written: 0, error: Some(error) }
    }

    /// A fix that found nothing to do.
    pub fn no_errors() -> (r: Self)
        ensures
            r.success,
            r.files_written == 0,
            r.error is None,
    {
        FixResult { success: true, files_written: 0, error: None }
    }
}

/// How many jobs were fixed, could not be fixed, and needed no fix.
#[derive(Debug, Clone, Copy, PartialEq, Eq, Structural)]
pub struct FixSummary {
    pub fixed: usize,
    pub failed: usize,
    pub skipped: usize,
}

/// The prompt that asks for a fix of one file: the errors of the given
/// kind, the file, what to do, and how to answer.
pub open spec fn file_fix_prompt(
    kind: ErrorType,
    error_output: Seq<char>,
    path: Seq<char>,
    content: Seq<char>,
) -> Seq<char> {
    kind.header() + "\n\n```\n"@ + trim(error_output) + "\n```\n\n## Source File: "@ + path
        + "\n\n```\n"@ + content + "\n```\n\n"@ + kind.instructions()
        + "\n\nOutput the complete fixed file using ~~~worksplit:"@ + path + " delimiters."@
}

/// Assembles the prompt that asks for a fix of one file.
pub fn assemble_file_fix_prompt(kind: ErrorType, error_output: &str, path: &str, content: &str) -> (r:
    String)
    ensures
        r@ == file_fix_prompt(kind, error_output@, path@, content@),
{
    let mut out: Vec<char> = Vec::new();
    append_str(&mut out, kind.prompt_header());
    append_str(&mut out, "\n\n```\n");
    append(&mut out, &trim_of(&chars_of(error_output)));
    append_str(&mut out, "\n```\n\n## Source File: ");
    append_str(&mut out, path);
    append_str(&mut out, "\n\n```\n");
    append_str(&mut out, content);
    append_str(&mut out, "\n```\n\n");
    append_str(&mut out, kind.fix_instructions());
    append_str(&mut out, "\n\nOutput the complete fixed file using ~~~worksplit:");
    append_str(&mut out, path);
    append_str(&mut out, " delimiters.");
    assert(out@ =~= file_fix_prompt(kind, error_output@, path@, content@));
    string_of(&out)
}

/// Where the fixing of a file stands: what is waited for.
#[derive(Debug, Clone, Copy, PartialEq, Eq, Structural)]
pub enum FixPhase {
    /// The first check of the file.
    Start,
    /// The fix with the given number, from 1.
    Fixing(usize),
    /// The check after the fix with the given number.
    Checking(usize),
    /// Nothing: the fixing is over.
    Done,
}

/// What is reported of the fixing of a file.
#[derive(Debug)]
pub enum FixEvent {
    /// The check ended; with what it printed.
    Checked { success: bool, output: String },
    /// The fix was tried; with whether it wrote anything.
    Tried(bool),
}

/// How the fixing of a file ended.
#[derive(Debug, Clone, Copy, PartialEq, Eq, Structural)]
pub enum FixOutcome {
    /// The first check found nothing.
    Clean,
    /// A check after a fix passed.
    Fixed,
    /// The fixes allowed are used up.
    GaveUp,
}

/// What is to be done next for the fixing of a file.
#[derive(Debug, Clone, Copy, PartialEq, Eq, Structural)]
pub enum FixRequest {
    /// Try the fix with the given number, for the errors that the state
    /// holds.
    Fix(usize),
    /// Check the file.
    Check,
    /// Nothing more.
    Finish(FixOutcome),
}

/// The state of the fixing of a file.
#[derive(Debug)]
pub struct FixState {
    pub phase: FixPhase,
    /// What the last failed check printed.
    pub errors: String,
}

/// The state of the fixing of a file as texts.
pub struct FixView {
    pub phase: FixPhase,
    pub errors: Seq<char>,
}

impl View for FixState {
    type V = FixView;

    open spec fn view(&self) -> FixView {
        FixView { phase: self.phase, errors: self.errors@ }
    }
}

/// The step that begins the fix with the given number, or ends the fixing
/// where as many fixes were tried as are allowed.
pub open spec fn fix_tried(max_attempts: usize, state: FixView, attempt: usize) -> (
    FixView,
    FixRequest,
) {
    if attempt > max_attempts {
        (FixView { phase: FixPhase::Done, ..state }, FixRequest::Finish(FixOutcome::GaveUp))
    } else {
        (FixView { phase: FixPhase::Fixing(attempt), ..state }, FixRequest::Fix(attempt))
    }
}

/// The number after `attempt`; the largest number where there is none.
pub open spec fn after(attempt: usize) -> usize {
    if attempt < usize::MAX {
        (attempt + 1) as usize
    } else {
        attempt
    }
}

/// The step of the fixing of a file on an event.
/// - The first check ends the fixing where it passes and prints nothing
///   but white space; else the first fix begins, for what it printed.
/// - A fix that wrote something is followed by a check, one that wrote
///   nothing by the next fix.
/// - A check after a fix ends the fixing where it passes; else the next fix
///   begins, for what it printed.
/// - Any other event ends the fixing.
pub open spec fn fix_step_of(
    max_attempts: usize,
    state: FixView,
    success: Option<bool>,
    output: Seq<char>,
    wrote: Option<bool>,
) -> (FixView, FixRequest) {
    match state.phase {
        FixPhase::Start => match success {
            Some(ok) => if ok && trim(output).len() == 0 {
                (FixView { phase: FixPhase::Done, ..state }, FixRequest::Finish(FixOutcome::Clean))
            } else {
                fix_tried(max_attempts, FixView { errors: output, ..state }, 1)
            },
            None => (
                FixView { phase: FixPhase::Done, ..state },
                FixRequest::Finish(FixOutcome::GaveUp),
            ),
        },
        FixPhase::Fixing(k) => match wrote {
            Some(true) => (FixView { phase: FixPhase::Checking(k), ..state }, FixRequest::Check),
            Some(false) => fix_tried(max_attempts, state, after(k)),
            None => (
                FixView { phase: FixPhase::Done, ..state },
                FixRequest::Finish(FixOutcome::GaveUp),
            ),
        },
        FixPhase::Checking(k) => match success {
            Some(true) => (
                FixView { phase: FixPhase::Done, ..state },
                FixRequest::Finish(FixOutcome::Fixed),
            ),
            Some(false) => fix_tried(max_attempts, FixView { errors: output, ..state }, after(k)),
            None => (
                FixView { phase: FixPhase::Done, ..state },
                FixRequest::Finish(FixOutcome::GaveUp),
            ),
        },
        FixPhase::Done => (state, FixRequest::Finish(FixOutcome::GaveUp)),
    }
}

impl FixEvent {
    /// Whether a check ended, and how.
    pub open spec fn success(&self) -> Option<bool> {
        match self {
            FixEvent::Checked { success, output } => Some(*success),
            FixEvent::Tried(_) => None,
        }
    }

    /// What a check printed.
    pub open spec fn output(&self) -> Seq<char> {
        match self {
            FixEvent::Checked { success, output } => output@,
            FixEvent::Tried(_) => Seq::empty(),
        }
    }

    /// Whether a fix was tried, and whether it wrote anything.
    pub open spec fn wrote(&self) -> Option<bool> {
        match self {
            FixEvent::Checked { success, output } => None,
            FixEvent::Tried(w) => Some(*w),
        }
    }
}

fn try_fix(max_attempts: usize, state: FixState, attempt: usize) -> (r: (FixState, FixRequest))
    ensures
        (r.0@, r.1) == fix_tried(max_attempts, state@, attempt),
{
    let mut next = state;
    if attempt > max_attempts {
        next.phase = FixPhase::Done;
        (next, FixRequest::Finish(FixOutcome::GaveUp))
    } else {
        next.phase = FixPhase::Fixing(attempt);
        (next, FixRequest::Fix(attempt))
    }
}

fn give_up(state: FixState) -> (r: (FixState, FixRequest))
    ensures
        r.0@ == (FixView { phase: FixPhase::Done, ..state@ }),
        r.1 == FixRequest::Finish(FixOutcome::GaveUp),
{
    let mut next = state;
    next.phase = FixPhase::Done;
    (next, FixRequest::Finish(FixOutcome::GaveUp))
}

fn number_after(attempt: usize) -> (r: usize)
    ensures
        r == after(attempt),
{
    if attempt < usize::MAX {
        attempt + 1
    } else {
        attempt
    }
}

impl FixState {
    /// The state before the first check.
    pub fn new() -> (r: Self)
        ensures
            r.phase == FixPhase::Start,
            r.errors@.len() == 0,
    {
        FixState { phase: FixPhase::Start, errors: String::new() }
    }
}

/// Makes one step of the fixing of a file, with at most `max_attempts`
/// fixes: takes the state and what is reported, and gives the state after
/// it and what is to be done. No fix is asked for beyond those allowed.
pub fn fix_step(max_attempts: usize, state: FixState, event: FixEvent) -> (r: (
    FixState,
    FixRequest,
))
    ensures
        (r.0@, r.1) == fix_step_of(
            max_attempts,
            state@,
            event.success(),
            event.output(),
            event.wrote(),
        ),
        r.1 matches FixRequest::Fix(n) ==> 1 <= n <= max_attempts,
        (r.1 is Finish) == (r.0.phase == FixPhase::Done),
{
    let phase = state.phase;
    match (phase, event) {
        (FixPhase::Start, FixEvent::Checked { success, output }) => {
            if success && trim_of(&chars_of(output.as_str())).len() == 0 {
                let mut next = state;
                next.phase = FixPhase::Done;
                (next, FixRequest::Finish(FixOutcome::Clean))
            } else {
                let mut next = state;
                next.errors = output;
                try_fix(max_attempts, next, 1)
            }
        },
        (FixPhase::Fixing(k), FixEvent::Tried(wrote)) => {
            if wrote {
                let mut next = state;
                next.phase = FixPhase::Checking(k);
                (next, FixRequest::Check)
            } else {
                try_fix(max_attempts, state, number_after(k))
            }
        },
        (FixPhase::Checking(k), FixEvent::Checked { success, output }) => {
            if success {
                let mut next = state;
                next.phase = FixPhase::Done;
                (next, FixRequest::Finish(FixOutcome::Fixed))
            } else {
                let mut next = state;
                next.errors = output;
                try_fix(max_attempts, next, number_after(k))
            }
        },
        (FixPhase::Done, _) => (state, FixRequest::Finish(FixOutcome::GaveUp)),
        _ => give_up(state),
    }
}

impl FixSummary {
    /// The summary with nothing counted.
    pub fn new() -> (r: Self)
        ensures
            r.fixed == 0 && r.failed == 0 && r.skipped == 0,
    {
        FixSummary { fixed: 0, failed: 0, skipped: 0 }
    }
}

} // verus!
