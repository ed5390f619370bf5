//! The workflow of one job, as a state machine.
//!
//! The machine decides; its driver acts. The driver hands the machine an
//! event, gets back what to write, which status updates to make and what
//! to do next, does it, and hands back what came of it. The machine itself
//! reads no file and calls no generator.
//!
//! A job is started, has a test generated first where it declares one,
//! generates its files in the way of its mode, has them built where a
//! build is configured, with a bounded number of automatic fixes, and has
//! them verified, with one retry. Whatever comes of it, the last update
//! of a run marks the job as run.

use crate::error::{OllamaError, WorkSplitError};
use crate::error_type::ErrorType;
use crate::job::{join_path, joined_path, Job, JobValidationError, OutputMode};
use crate::parser::edit::{edit_views, parse_edit_instructions, parsed_edits};
use crate::parser::extract::{
    count_lines, extract_code, extract_code_files, extracted_files, joined_contents,
};
use crate::parser::prompts::{
    assemble_creation_prompt, assemble_edit_prompt, assemble_retry_prompt_multi,
    assemble_sequential_creation_prompt, assemble_sequential_split_prompt, assemble_test_prompt,
    assemble_verification_prompt_multi, creation_prompt, edit_prompt, retry_prompt,
    sequential_creation_prompt, sequential_split_prompt, test_prompt, verification_prompt,
};
use crate::parser::verdict::{opt_text, parse_verification, verification_of};
use crate::parser::{file_views, ExtractedFile, FileView, VerificationResult};
use crate::prompts::{
    SYSTEM_PROMPT_CREATE, SYSTEM_PROMPT_EDIT, SYSTEM_PROMPT_RETRY, SYSTEM_PROMPT_TEST,
    SYSTEM_PROMPT_VERIFY,
};
use crate::runner::{
    count_total_lines, done_views, failed_views, process_edits, targets_edited, told_lines,
    DoneView, EditRun, FailedView, JobResult,
};
use crate::status::{JobStatus, PartialEditState};
use crate::text::{
    append, append_decimal, append_str, chars_of, decimal, join, join_of, lemma_rows_push,
    lemma_strs_push, lines, pair_views, rows, string_of, strs, trim, trim_of,
};
use vstd::prelude::*;

verus! {

/// The system prompts that a run is given, each read from its file; one
/// that is optional is absent where its file is.
#[derive(Debug, Clone)]
pub struct Prompts {
    pub create: String,
    pub verify: String,
    pub test: Option<String>,
    pub edit: String,
    pub verify_edit: String,
    pub split: Option<String>,
    pub fix: Option<String>,
}

/// What a run takes from the configuration.
#[derive(Debug, Clone)]
pub struct RunSettings {
    /// Whether the generator's output is streamed.
    pub stream_output: bool,
    /// Whether what was generated is built.
    pub verify_build: bool,
    /// The command that builds it.
    pub build_command: Option<String>,
    /// Whether a failed build is answered by an automatic fix.
    pub auto_fix: bool,
    /// How many automatic fixes are tried at most.
    pub auto_fix_attempts: usize,
    /// The directory of the job files and the system prompts.
    pub jobs_dir: String,
}

/// What a job is run with: the job, the prompts, the settings, and the
/// context files with their content.
#[derive(Debug, Clone)]
pub struct JobPlan {
    pub job: Job,
    pub prompts: Prompts,
    pub settings: RunSettings,
    pub context_files: Vec<(String, String)>,
}

/// Where the run of a job stands: what the machine waits for.
#[derive(Debug, Clone, Copy, PartialEq, Eq, Structural)]
pub enum Phase {
    /// To be started.
    Start,
    /// The generated test.
    Test,
    /// The content of the files that the job edits or splits.
    Targets,
    /// The output file of a split with the given index.
    Split(usize),
    /// The output file with the given index, generated one by one.
    Sequential(usize),
    /// The edit instructions.
    Edit,
    /// The generated files.
    Replace,
    /// The result of the build.
    Build,
    /// The current content of the generated files, for the fix with the
    /// given number, from 1.
    FixFiles(usize),
    /// The fix with the given number.
    Fix(usize),
    /// The result of the build after the fix with the given number.
    Rebuild(usize),
    /// The verdict on the generated files.
    Verdict,
    /// The files generated again after a failed verification.
    Retry,
    /// The verdict on the files generated again.
    SecondVerdict,
    /// Nothing: the run is over.
    Done,
}

/// What the driver reports to the machine.
#[derive(Debug)]
pub enum Event {
    /// The run is to begin.
    Begin,
    /// The generator answered.
    Generated(String),
    /// The call of the generator failed.
    GenerationFailed(OllamaError),
    /// The files that were read, each with its content.
    FilesRead(Vec<(String, String)>),
    /// The build command ended; with what it printed.
    Built { success: bool, output: String },
    /// Reading, writing or running a command failed; with the reason.
    IoFailed(String),
}

/// An update of the job's status record.
#[derive(Debug)]
pub enum StatusUpdate {
    /// The status is set.
    Status(JobStatus),
    /// The job fails with a message.
    Fail(String),
    /// The job is partially done; with what its edits achieved.
    Partial(PartialEditState),
    /// The job is marked as run.
    MarkRan,
}

/// What the driver is to do next.
#[derive(Debug)]
pub enum Request {
    /// Call the generator, and report its answer or its failure.
    Generate { system: String, prompt: String, stream: bool },
    /// Read the files, and report them with their content. Where all are
    /// required, a file that cannot be read is a failure; else it is left
    /// out.
    ReadFiles { paths: Vec<String>, required: bool },
    /// Run the build command, and report how it ended.
    RunBuild { command: String },
    /// Nothing more: the run is over, with this outcome.
    Finish(Result<JobResult, WorkSplitError>),
}

/// What the machine asks of its driver after an event: the status updates
/// to make, in order; then the files to write, in order, paths relative to
/// the project root; then the request.
#[derive(Debug)]
pub struct Action {
    pub updates: Vec<StatusUpdate>,
    pub writes: Vec<(String, String)>,
    pub request: Request,
}

/// What changes in the course of a run.
#[derive(Debug)]
pub struct RunState {
    pub phase: Phase,
    /// The files that the job edits or splits, or that a fix is made for,
    /// as they were read last.
    pub targets: Vec<(String, String)>,
    /// The files generated so far.
    pub generated: Vec<(String, String)>,
    pub test_path: Option<String>,
    pub test_lines: Option<usize>,
    /// What the last failed build printed.
    pub build_output: String,
    pub retry_attempted: bool,
}

/// A status update as texts.
pub enum UpdateView {
    Status(JobStatus),
    Fail(Seq<char>),
    Partial(Seq<DoneView>, Seq<FailedView>),
    MarkRan,
}

/// The outcome of a job as texts.
pub struct ResultView {
    pub job_id: Seq<char>,
    pub status: JobStatus,
    pub error: Option<Seq<char>>,
    pub output_paths: Seq<Seq<char>>,
    pub output_lines: Option<usize>,
    pub test_path: Option<Seq<char>>,
    pub test_lines: Option<usize>,
    pub retry_attempted: bool,
    pub implicit_context_files: Seq<Seq<char>>,
}

/// A request as texts. A run that ends with an error is told by what the
/// error says.
pub enum RequestView {
    Generate { system: Seq<char>, prompt: Seq<char>, stream: bool },
    ReadFiles { paths: Seq<Seq<char>>, required: bool },
    RunBuild { command: Seq<char> },
    Completed(ResultView),
    Failed(Seq<char>),
}

/// An action as texts.
pub struct ActionView {
    pub updates: Seq<UpdateView>,
    pub writes: Seq<(Seq<char>, Seq<char>)>,
    pub request: RequestView,
}

/// The state of a run as texts.
pub struct RunView {
    pub phase: Phase,
    pub targets: Seq<(Seq<char>, Seq<char>)>,
    pub generated: Seq<(Seq<char>, Seq<char>)>,
    pub test_path: Option<Seq<char>>,
    pub test_lines: Option<usize>,
    pub build_output: Seq<char>,
    pub retry_attempted: bool,
}

/// A step of the machine: the state after it, and the action.
pub struct StepView {
    pub run: RunView,
    pub action: ActionView,
}

impl View for StatusUpdate {
    type V = UpdateView;

    open spec fn view(&self) -> UpdateView {
        match self {
            StatusUpdate::Status(s) => UpdateView::Status(*s),
            StatusUpdate::Fail(m) => UpdateView::Fail(m@),
            StatusUpdate::Partial(p) => UpdateView::Partial(
                done_views(p.successful_edits@),
                failed_views(p.failed_edits@),
            ),
            StatusUpdate::MarkRan => UpdateView::MarkRan,
        }
    }
}

/// The views of a sequence of updates.
pub open spec fn update_views(us: Seq<StatusUpdate>) -> Seq<UpdateView> {
    Seq::new(us.len(), |i: int| us[i]@)
}

impl View for JobResult {
    type V = ResultView;

    open spec fn view(&self) -> ResultView {
        ResultView {
            job_id: self.job_id@,
            status: self.status,
            error: opt_text(self.error),
            output_paths: strs(self.output_paths@),
            output_lines: self.output_lines,
            test_path: opt_text(self.test_path),
            test_lines: self.test_lines,
            retry_attempted: self.retry_attempted,
            implicit_context_files: strs(self.implicit_context_files@),
        }
    }
}

impl View for Request {
    type V = RequestView;

    open spec fn view(&self) -> RequestView {
        match self {
            Request::Generate { system, prompt, stream } => RequestView::Generate {
                system: system@,
                prompt: prompt@,
                stream: *stream,
            },
            Request::ReadFiles { paths, required } => RequestView::ReadFiles {
                paths: strs(paths@),
                required: *required,
            },
            Request::RunBuild { command } => RequestView::RunBuild { command: command@ },
            Request::Finish(Ok(r)) => RequestView::Completed(r@),
            Request::Finish(Err(e)) => RequestView::Failed(e.text()),
        }
    }
}

impl View for Action {
    type V = ActionView;

    open spec fn view(&self) -> ActionView {
        ActionView {
            updates: update_views(self.updates@),
            writes: pair_views(self.writes@),
            request: self.request@,
        }
    }
}

impl View for RunState {
    type V = RunView;

    open spec fn view(&self) -> RunView {
        RunView {
            phase: self.phase,
            targets: pair_views(self.targets@),
            generated: pair_views(self.generated@),
            test_path: opt_text(self.test_path),
            test_lines: self.test_lines,
            build_output: self.build_output@,
            retry_attempted: self.retry_attempted,
        }
    }
}

/// The paths of files given as pairs of path and content.
pub open spec fn paths_of(files: Seq<(Seq<char>, Seq<char>)>) -> Seq<Seq<char>> {
    Seq::new(files.len(), |i: int| files[i].0)
}

impl JobPlan {
    /// The files that the job is to generate.
    pub open spec fn outputs(&self) -> Seq<Seq<char>> {
        self.job.metadata.outputs()
    }

    /// The system prompt of the verification: that for edits where the job
    /// edits.
    pub open spec fn verify_prompt(&self) -> Seq<char> {
        if self.job.metadata.mode == OutputMode::Edit {
            self.prompts.verify_edit@
        } else {
            self.prompts.verify@
        }
    }
}

/// The step that ends a run with a result: the job is marked as run.
pub open spec fn completed(
    plan: JobPlan,
    run: RunView,
    updates: Seq<UpdateView>,
    writes: Seq<(Seq<char>, Seq<char>)>,
    status: JobStatus,
    error: Option<Seq<char>>,
) -> StepView {
    StepView {
        run: RunView { phase: Phase::Done, ..run },
        action: ActionView {
            updates: updates.push(UpdateView::MarkRan),
            writes,
            request: RequestView::Completed(
                ResultView {
                    job_id: plan.job.id@,
                    status,
                    error,
                    output_paths: paths_of(run.generated),
                    output_lines: told_lines(run.generated),
                    test_path: run.test_path,
                    test_lines: run.test_lines,
                    retry_attempted: run.retry_attempted,
                    implicit_context_files: Seq::empty(),
                },
            ),
        },
    }
}

/// The step that ends a run with an error: the job fails with what the
/// error says, and is marked as run.
pub open spec fn failed(
    run: RunView,
    updates: Seq<UpdateView>,
    writes: Seq<(Seq<char>, Seq<char>)>,
    error: Seq<char>,
) -> StepView {
    StepView {
        run: RunView { phase: Phase::Done, ..run },
        action: ActionView {
            updates: updates.push(UpdateView::Fail(error)).push(UpdateView::MarkRan),
            writes,
            request: RequestView::Failed(error),
        },
    }
}

/// The step that ends a run with an error, with nothing else to update or
/// to write.
pub open spec fn failed_job(run: RunView, error: Seq<char>) -> StepView {
    failed(run, Seq::empty(), Seq::empty(), error)
}

/// The step that asks the generator.
pub open spec fn asking(
    run: RunView,
    phase: Phase,
    updates: Seq<UpdateView>,
    writes: Seq<(Seq<char>, Seq<char>)>,
    system: Seq<char>,
    prompt: Seq<char>,
    stream: bool,
) -> StepView {
    StepView {
        run: RunView { phase, ..run },
        action: ActionView {
            updates,
            writes,
            request: RequestView::Generate { system, prompt, stream },
        },
    }
}

/// The step that begins the verification. A job that asks for none passes.
/// Else the generator is asked for a verdict on the generated files.
pub open spec fn verification_begun(
    plan: JobPlan,
    run: RunView,
    updates: Seq<UpdateView>,
    writes: Seq<(Seq<char>, Seq<char>)>,
) -> StepView {
    if !plan.job.metadata.verify {
        completed(
            plan,
            run,
            updates.push(UpdateView::Status(JobStatus::Pass)),
            writes,
            JobStatus::Pass,
            None,
        )
    } else {
        asking(
            run,
            Phase::Verdict,
            updates.push(UpdateView::Status(JobStatus::PendingVerification)),
            writes,
            SYSTEM_PROMPT_VERIFY@,
            verification_prompt(
                plan.verify_prompt(),
                pair_views(plan.context_files@),
                run.generated,
                plan.job.instructions@,
            ),
            false,
        )
    }
}

/// The step that begins the build: the build command is run where a build
/// is configured; else the verification begins.
pub open spec fn build_begun(
    plan: JobPlan,
    run: RunView,
    updates: Seq<UpdateView>,
    writes: Seq<(Seq<char>, Seq<char>)>,
) -> StepView {
    if plan.settings.verify_build && plan.settings.build_command is Some {
        StepView {
            run: RunView { phase: Phase::Build, ..run },
            action: ActionView {
                updates,
                writes,
                request: RequestView::RunBuild { command: plan.settings.build_command->0@ },
            },
        }
    } else {
        verification_begun(plan, run, updates, writes)
    }
}

/// What a failed build says where no fix is tried.
pub open spec fn build_failure(files: Seq<(Seq<char>, Seq<char>)>, output: Seq<char>) -> Seq<char> {
    "Build failed after generating files:\n\nFiles generated:\n"@ + join(
        paths_of(files),
        seq!['\n'],
    ) + "\n\nBuild output:\n"@ + output
}

/// What a failed build says after the fixes that were tried.
pub open spec fn fixes_exhausted(
    attempts: usize,
    files: Seq<(Seq<char>, Seq<char>)>,
    output: Seq<char>,
) -> Seq<char> {
    "Build failed after "@ + decimal(attempts as nat) + " auto-fix attempts:\n\nFiles:\n"@ + join(
        paths_of(files),
        seq!['\n'],
    ) + "\n\nFinal error:\n"@ + output
}

/// What the error of a failed build says.
pub open spec fn build_error_text(command: Seq<char>, output: Seq<char>) -> Seq<char> {
    "Build failed for "@ + command + ":\n"@ + output
}

/// The step that begins the fix with the given number: the current
/// content of the generated files is asked for. Where as many fixes were
/// tried as are allowed, or no fix prompt is given, the run ends with the
/// failed build.
pub open spec fn fix_begun(plan: JobPlan, run: RunView, attempt: usize) -> StepView {
    if attempt > plan.settings.auto_fix_attempts || plan.prompts.fix is None
        || plan.settings.build_command is None {
        failed(
            run,
            Seq::empty(),
            Seq::empty(),
            build_error_text(
                match plan.settings.build_command {
                    Some(c) => c@,
                    None => Seq::empty(),
                },
                fixes_exhausted(plan.settings.auto_fix_attempts, run.generated, run.build_output),
            ),
        )
    } else {
        StepView {
            run: RunView { phase: Phase::FixFiles(attempt), ..run },
            action: ActionView {
                updates: Seq::empty(),
                writes: Seq::empty(),
                request: RequestView::ReadFiles { paths: paths_of(run.generated), required: false },
            },
        }
    }
}

/// The number after `attempt`; the largest number where there is none.
pub open spec fn following(attempt: usize) -> usize {
    if attempt < usize::MAX {
        (attempt + 1) as usize
    } else {
        attempt
    }
}

/// The files shown to a fix, each under a heading and within fences.
pub open spec fn source_blocks(files: Seq<(Seq<char>, Seq<char>)>) -> Seq<char>
    decreases files.len(),
{
    if files.len() == 0 {
        Seq::empty()
    } else {
        source_blocks(files.drop_last()) + "## Source File: "@ + files.last().0 + "\n\n```\n"@
            + files.last().1 + "\n```\n\n"@
    }
}

/// The prompt that asks for a fix of errors of the given kind: the errors,
/// what to do about them, the files, and how to answer.
pub open spec fn fix_prompt(
    kind: ErrorType,
    output: Seq<char>,
    files: Seq<(Seq<char>, Seq<char>)>,
) -> Seq<char> {
    kind.header() + "\n\n```\n"@ + trim(output) + "\n```\n\n"@ + kind.instructions() + "\n\n"@
        + source_blocks(files)
        + "Output the complete fixed file(s) using ~~~worksplit:path/to/file delimiters.\n"@
}

/// The files that a fix writes: of the files of the answer, each that
/// names its path; one that names none goes to the one file shown, where
/// one was shown, and is left out else.
pub open spec fn fix_writes(files: Seq<FileView>, shown: Seq<(Seq<char>, Seq<char>)>) -> Seq<
    (Seq<char>, Seq<char>),
>
    decreases files.len(),
{
    if files.len() == 0 {
        Seq::empty()
    } else {
        let before = fix_writes(files.drop_last(), shown);
        match files.last().path {
            Some(p) => before.push((p, files.last().content)),
            None => if shown.len() == 1 {
                before.push((shown[0].0, files.last().content))
            } else {
                before
            },
        }
    }
}

/// The files of an answer, each at its path, or at `default_path` where it
/// names none.
pub open spec fn placed_files(files: Seq<FileView>, default_path: Seq<char>) -> Seq<
    (Seq<char>, Seq<char>),
> {
    Seq::new(
        files.len(),
        |i: int|
            (
                match files[i].path {
                    Some(p) => p,
                    None => default_path,
                },
                files[i].content,
            ),
    )
}

/// The files of an answer that name their path.
pub open spec fn named_files(files: Seq<FileView>) -> Seq<(Seq<char>, Seq<char>)>
    decreases files.len(),
{
    if files.len() == 0 {
        Seq::empty()
    } else {
        let before = named_files(files.drop_last());
        match files.last().path {
            Some(p) => before.push((p, files.last().content)),
            None => before,
        }
    }
}

/// The content of the first file of an answer.
pub open spec fn first_content(response: Seq<char>) -> Seq<char> {
    if extracted_files(response).len() > 0 {
        extracted_files(response)[0].content
    } else {
        Seq::empty()
    }
}

/// The step that asks for the output file with index `k` of a job that
/// generates its files one by one; where there is no such file, the build
/// begins.
pub open spec fn sequential_asked(
    plan: JobPlan,
    run: RunView,
    k: usize,
    updates: Seq<UpdateView>,
    writes: Seq<(Seq<char>, Seq<char>)>,
) -> StepView {
    let outputs = plan.outputs();
    if k < outputs.len() {
        asking(
            run,
            Phase::Sequential(k),
            updates,
            writes,
            SYSTEM_PROMPT_CREATE@,
            sequential_creation_prompt(
                plan.prompts.create@,
                pair_views(plan.context_files@),
                run.generated,
                plan.job.instructions@,
                outputs[k as int],
                outputs.skip(k + 1),
            ),
            plan.settings.stream_output,
        )
    } else {
        build_begun(plan, run, updates, writes)
    }
}

/// The file that a split job splits, with its content as it was read;
/// empty where it was not.
pub open spec fn split_target(plan: JobPlan, run: RunView) -> (Seq<char>, Seq<char>) {
    (
        match plan.job.metadata.target_file {
            Some(t) => t@,
            None => Seq::empty(),
        },
        if run.targets.len() > 0 {
            run.targets[0].1
        } else {
            Seq::empty()
        },
    )
}

/// The step that asks for the output file with index `k` of a split; where
/// there is no such file, the build begins.
pub open spec fn split_asked(
    plan: JobPlan,
    run: RunView,
    k: usize,
    updates: Seq<UpdateView>,
    writes: Seq<(Seq<char>, Seq<char>)>,
) -> StepView {
    let outputs = plan.outputs();
    if k < outputs.len() && plan.prompts.split is Some {
        asking(
            run,
            Phase::Split(k),
            updates,
            writes,
            SYSTEM_PROMPT_CREATE@,
            sequential_split_prompt(
                plan.prompts.split->0@,
                split_target(plan, run).0,
                split_target(plan, run).1,
                pair_views(plan.context_files@),
                run.generated,
                plan.job.instructions@,
                outputs[k as int],
                outputs.skip(k + 1),
            ),
            plan.settings.stream_output,
        )
    } else {
        build_begun(plan, run, updates, writes)
    }
}

/// What the error says that a system prompt is not found in the jobs
/// directory.
pub open spec fn prompt_missing(plan: JobPlan, name: Seq<char>) -> Seq<char> {
    "System prompt not found: "@ + joined_path(plan.settings.jobs_dir@, name)
}

/// The step that begins the work of the job's mode:
/// - a split needs its prompt and asks for the content of the file to
///   split;
/// - an edit asks for the content of its target files;
/// - a job that generates its files one by one asks for the first;
/// - any other job asks for its files at once.
pub open spec fn work_begun(
    plan: JobPlan,
    run: RunView,
    updates: Seq<UpdateView>,
    writes: Seq<(Seq<char>, Seq<char>)>,
) -> StepView {
    let m = plan.job.metadata;
    if m.mode == OutputMode::Split {
        if plan.prompts.split is None {
            failed(run, updates, writes, prompt_missing(plan, "_systemprompt_split.md"@))
        } else if m.target_file is None {
            failed(
                run,
                updates,
                writes,
                "Job validation error: "@ + JobValidationError::SplitMissingTargetFile.text(),
            )
        } else {
            StepView {
                run: RunView { phase: Phase::Targets, ..run },
                action: ActionView {
                    updates,
                    writes,
                    request: RequestView::ReadFiles {
                        paths: seq![m.target_file->0@],
                        required: true,
                    },
                },
            }
        }
    } else if m.mode == OutputMode::Edit {
        StepView {
            run: RunView { phase: Phase::Targets, ..run },
            action: ActionView {
                updates,
                writes,
                request: RequestView::ReadFiles { paths: m.targets(), required: true },
            },
        }
    } else if m.sequential_mode() {
        sequential_asked(plan, run, 0, updates, writes)
    } else {
        asking(
            run,
            Phase::Replace,
            updates,
            writes,
            SYSTEM_PROMPT_CREATE@,
            creation_prompt(
                plan.prompts.create@,
                pair_views(plan.context_files@),
                plan.job.instructions@,
                m.default_output(),
            ),
            plan.settings.stream_output,
        )
    }
}

/// The tokens that a text is estimated at: a quarter of its bytes.
pub open spec fn tokens_of(s: Seq<char>) -> nat {
    vstd::utf8::encode_utf8(s).len() / 4
}

/// The tokens that the contents of the files are estimated at.
pub open spec fn file_tokens(files: Seq<(Seq<char>, Seq<char>)>) -> nat
    decreases files.len(),
{
    if files.len() == 0 {
        0
    } else {
        file_tokens(files.drop_last()) + tokens_of(files.last().1)
    }
}

/// The tokens that a call for a job's files is estimated at: those of the
/// system prompt, of the context files and of the instructions, and 1200
/// kept for the answer.
pub open spec fn estimated_tokens(
    system_prompt: Seq<char>,
    context_files: Seq<(Seq<char>, Seq<char>)>,
    instructions: Seq<char>,
) -> nat {
    tokens_of(system_prompt) + file_tokens(context_files) + tokens_of(instructions) + 1200
}

/// The number of tokens that a model takes in.
pub const CONTEXT_LIMIT: usize = 32000;

/// From how many tokens on a call is refused: nine tenths of what the
/// model takes in.
pub const TOKEN_ERROR_THRESHOLD: usize = 28800;

/// The number as the machine holds it, or the largest it can hold.
pub open spec fn capped(n: nat) -> usize {
    if n <= usize::MAX {
        n as usize
    } else {
        usize::MAX
    }
}

/// What the error says that the estimate is over the budget.
pub open spec fn over_budget(estimate: nat) -> Seq<char> {
    "Token budget exceeded: estimated "@ + decimal(capped(estimate) as nat) + " tokens (max: "@
        + decimal(CONTEXT_LIMIT as nat) + ")"@
}

/// The step that starts a run. A job whose call is estimated over the
/// budget is refused. Else the job is at work; where it declares a test
/// file, the test is asked for first, which needs its prompt; else the
/// work of the job's mode begins.
pub open spec fn started(plan: JobPlan, run: RunView) -> StepView {
    let estimate = estimated_tokens(
        plan.prompts.create@,
        pair_views(plan.context_files@),
        plan.job.instructions@,
    );
    let m = plan.job.metadata;
    if estimate > TOKEN_ERROR_THRESHOLD {
        failed(run, Seq::empty(), Seq::empty(), over_budget(estimate))
    } else if m.test_file is Some {
        if plan.prompts.test is None {
            failed(
                run,
                seq![UpdateView::Status(JobStatus::PendingWork)],
                Seq::empty(),
                prompt_missing(plan, "_systemprompt_test.md"@),
            )
        } else {
            let test_path = joined_path(m.output_dir@, m.test_file->0@);
            asking(
                RunView { test_path: Some(test_path), ..run },
                Phase::Test,
                seq![UpdateView::Status(JobStatus::PendingTest)],
                Seq::empty(),
                SYSTEM_PROMPT_TEST@,
                test_prompt(
                    plan.prompts.test->0@,
                    pair_views(plan.context_files@),
                    plan.job.instructions@,
                    test_path,
                ),
                plan.settings.stream_output,
            )
        }
    } else {
        work_begun(plan, run, seq![UpdateView::Status(JobStatus::PendingWork)], Seq::empty())
    }
}

/// The step after the generated test: the test is written, whatever it is,
/// and the work of the job's mode begins.
pub open spec fn test_generated(plan: JobPlan, run: RunView, response: Seq<char>) -> StepView {
    let code = joined_contents(extracted_files(response));
    let path = match run.test_path {
        Some(p) => p,
        None => Seq::empty(),
    };
    work_begun(
        plan,
        RunView { test_lines: Some(lines(code).len() as usize), ..run },
        seq![UpdateView::Status(JobStatus::PendingWork)],
        seq![(path, code)],
    )
}

/// The step after the target files were read: a split asks for its first
/// output file, an edit for the edit instructions.
pub open spec fn targets_read(plan: JobPlan, run: RunView, files: Seq<(Seq<char>, Seq<char>)>) -> StepView {
    let with_targets = RunView { targets: files, ..run };
    if plan.job.metadata.mode == OutputMode::Split {
        split_asked(plan, with_targets, 0, Seq::empty(), Seq::empty())
    } else {
        asking(
            with_targets,
            Phase::Edit,
            Seq::empty(),
            Seq::empty(),
            SYSTEM_PROMPT_EDIT@,
            edit_prompt(
                plan.prompts.edit@,
                files,
                pair_views(plan.context_files@),
                plan.job.instructions@,
            ),
            plan.settings.stream_output,
        )
    }
}

/// What the error says that a split produced nothing for a file.
pub open spec fn split_empty(path: Seq<char>) -> Seq<char> {
    "Split produced no content for "@ + path
}

/// The step after an output file of a split was generated: an empty file
/// fails the job; else the file is written and the next is asked for.
pub open spec fn split_generated(plan: JobPlan, run: RunView, k: usize, response: Seq<char>) -> StepView {
    let outputs = plan.outputs();
    let content = first_content(response);
    if k >= outputs.len() {
        build_begun(plan, run, Seq::empty(), Seq::empty())
    } else if content.len() == 0 {
        failed_job(run, "Edit failed: "@ + split_empty(outputs[k as int]))
    } else {
        split_asked(
            plan,
            RunView { generated: run.generated.push((outputs[k as int], content)), ..run },
            following(k),
            Seq::empty(),
            seq![(outputs[k as int], content)],
        )
    }
}

/// The step after an output file was generated, of a job that generates
/// its files one by one: the file is written and the next is asked for.
pub open spec fn sequential_generated(
    plan: JobPlan,
    run: RunView,
    k: usize,
    response: Seq<char>,
) -> StepView {
    let outputs = plan.outputs();
    let content = first_content(response);
    if k >= outputs.len() {
        build_begun(plan, run, Seq::empty(), Seq::empty())
    } else {
        sequential_asked(
            plan,
            RunView { generated: run.generated.push((outputs[k as int], content)), ..run },
            following(k),
            Seq::empty(),
            seq![(outputs[k as int], content)],
        )
    }
}

/// The step after the files were generated at once: each file of the
/// answer is written, to its own path or to the job's output path, and the
/// build begins.
pub open spec fn replace_generated(plan: JobPlan, run: RunView, response: Seq<char>) -> StepView {
    let files = placed_files(extracted_files(response), plan.job.metadata.default_output());
    build_begun(plan, RunView { generated: files, ..run }, Seq::empty(), files)
}

/// The step after the edit instructions were generated. The edits are
/// tried on the target files. Where none applies, the job fails. Where all
/// apply, the changed files are written and the build begins. Where some
/// fail, the changed files are written and the job is partially done.
pub open spec fn edits_generated(plan: JobPlan, run: RunView, response: Seq<char>) -> StepView {
    let edited = targets_edited_views(run.targets, parsed_edits(response));
    if edited.files.len() == 0 {
        failed_job(run, "Edit failed: "@ + "Edit mode produced no edits"@)
    } else if edited.failed.len() > 0 {
        completed(
            plan,
            RunView { generated: edited.files, ..run },
            seq![UpdateView::Partial(edited.done, edited.failed)],
            edited.files,
            JobStatus::Partial,
            None,
        )
    } else {
        build_begun(plan, RunView { generated: edited.files, ..run }, Seq::empty(), edited.files)
    }
}

/// What the target files and the records are after the edits were tried,
/// as `targets_edited` tells it, from the texts of the target files.
pub open spec fn targets_edited_views(
    targets: Seq<(Seq<char>, Seq<char>)>,
    edits: Seq<crate::parser::edit::EditView>,
) -> EditRun
    decreases targets.len(),
{
    if targets.len() == 0 {
        EditRun { files: Seq::empty(), done: Seq::empty(), failed: Seq::empty() }
    } else {
        let before = targets_edited_views(targets.drop_last(), edits);
        let path = targets.last().0;
        let p = crate::runner::edits_applied(
            crate::runner::EditProgress {
                content: targets.last().1,
                done: before.done,
                failed: before.failed,
            },
            edits.filter(|e: crate::parser::edit::EditView| crate::job::same_file(e.file_path, path)),
        );
        EditRun {
            files: if p.done.len() > before.done.len() {
                before.files.push((path, p.content))
            } else {
                before.files
            },
            done: p.done,
            failed: p.failed,
        }
    }
}

/// The two ways of telling what the edits make of the target files agree.
pub proof fn lemma_targets_edited(targets: Seq<(String, String)>, edits: Seq<crate::parser::edit::EditView>)
    ensures
        targets_edited(targets, edits) == targets_edited_views(pair_views(targets), edits),
    decreases targets.len(),
{
    if targets.len() > 0 {
        lemma_targets_edited(targets.drop_last(), edits);
        assert(pair_views(targets).drop_last() =~= pair_views(targets.drop_last()));
    }
}

/// The step after the first build: a build that succeeds leads to the
/// verification; one that fails ends the run, or leads to the first fix
/// where fixes are allowed.
pub open spec fn built(plan: JobPlan, run: RunView, success: bool, output: Seq<char>) -> StepView {
    if success {
        verification_begun(plan, run, Seq::empty(), Seq::empty())
    } else if !plan.settings.auto_fix || plan.settings.build_command is None {
        failed(
            run,
            Seq::empty(),
            Seq::empty(),
            build_error_text(
                match plan.settings.build_command {
                    Some(c) => c@,
                    None => Seq::empty(),
                },
                build_failure(run.generated, output),
            ),
        )
    } else {
        fix_begun(plan, RunView { build_output: output, ..run }, 1)
    }
}

/// The step after the files were read for a fix: the generator is asked
/// for the fix.
pub open spec fn fix_files_read(
    plan: JobPlan,
    run: RunView,
    attempt: usize,
    files: Seq<(Seq<char>, Seq<char>)>,
) -> StepView {
    if plan.prompts.fix is None {
        fix_begun(plan, run, following(attempt))
    } else {
        asking(
            RunView { targets: files, ..run },
            Phase::Fix(attempt),
            Seq::empty(),
            Seq::empty(),
            plan.prompts.fix->0@,
            fix_prompt(ErrorType::Build, run.build_output, files),
            plan.settings.stream_output,
        )
    }
}

/// The step after a fix was generated: where it gives files to write, they
/// are written and the build is run again; else the next fix begins.
pub open spec fn fix_generated(plan: JobPlan, run: RunView, attempt: usize, response: Seq<char>) -> StepView {
    let writes = fix_writes(extracted_files(response), run.targets);
    if writes.len() > 0 && plan.settings.build_command is Some {
        StepView {
            run: RunView { phase: Phase::Rebuild(attempt), ..run },
            action: ActionView {
                updates: Seq::empty(),
                writes,
                request: RequestView::RunBuild { command: plan.settings.build_command->0@ },
            },
        }
    } else {
        fix_begun(plan, run, following(attempt))
    }
}

/// The step after the build that follows a fix: a build that succeeds
/// leads to the verification, one that fails to the next fix.
pub open spec fn rebuilt(
    plan: JobPlan,
    run: RunView,
    attempt: usize,
    success: bool,
    output: Seq<char>,
) -> StepView {
    if success {
        verification_begun(plan, run, Seq::empty(), Seq::empty())
    } else {
        fix_begun(plan, RunView { build_output: output, ..run }, following(attempt))
    }
}

/// The step that ends a run with the verdict on its files: a job that
/// passes is set to pass; one that fails is failed with the reason, or set
/// to fail where none is given.
pub open spec fn judged(
    plan: JobPlan,
    run: RunView,
    verdict: VerificationResult,
    reason: Option<Seq<char>>,
) -> StepView {
    completed(
        plan,
        run,
        if verdict.passes() {
            seq![UpdateView::Status(JobStatus::Pass)]
        } else {
            match reason {
                Some(r) => seq![UpdateView::Fail(r)],
                None => seq![UpdateView::Status(JobStatus::Fail)],
            }
        },
        Seq::empty(),
        verdict.job_status(),
        reason,
    )
}

/// The step after the first verdict. A verdict that passes ends the run;
/// one that fails leads to the one retry, for which the generator is given
/// the files and the reason.
pub open spec fn first_verdict(plan: JobPlan, run: RunView, response: Seq<char>) -> StepView {
    let v = verification_of(response);
    if v.0.passes() {
        judged(plan, run, v.0, v.1)
    } else {
        asking(
            RunView { retry_attempted: true, ..run },
            Phase::Retry,
            Seq::empty(),
            Seq::empty(),
            SYSTEM_PROMPT_RETRY@,
            retry_prompt(
                plan.prompts.create@,
                pair_views(plan.context_files@),
                plan.job.instructions@,
                run.generated,
                match v.1 {
                    Some(r) => r,
                    None => Seq::empty(),
                },
            ),
            true,
        )
    }
}

/// The step after the files were generated again: those that name their
/// path are written and take the place of the generated files, and the
/// generator is asked for a verdict on them.
pub open spec fn retried(plan: JobPlan, run: RunView, response: Seq<char>) -> StepView {
    let files = named_files(extracted_files(response));
    asking(
        RunView { generated: files, ..run },
        Phase::SecondVerdict,
        Seq::empty(),
        files,
        SYSTEM_PROMPT_VERIFY@,
        verification_prompt(
            plan.verify_prompt(),
            pair_views(plan.context_files@),
            files,
            plan.job.instructions@,
        ),
        false,
    )
}

/// The step after the second verdict, which ends the run, whatever it is.
pub open spec fn second_verdict(plan: JobPlan, run: RunView, response: Seq<char>) -> StepView {
    let v = verification_of(response);
    judged(plan, run, v.0, v.1)
}

/// An event as texts.
pub enum EventView {
    Begin,
    Generated(Seq<char>),
    GenerationFailed(Seq<char>),
    FilesRead(Seq<(Seq<char>, Seq<char>)>),
    Built { success: bool, output: Seq<char> },
    IoFailed(Seq<char>),
}

impl View for Event {
    type V = EventView;

    open spec fn view(&self) -> EventView {
        match self {
            Event::Begin => EventView::Begin,
            Event::Generated(r) => EventView::Generated(r@),
            Event::GenerationFailed(e) => EventView::GenerationFailed(e.text()),
            Event::FilesRead(files) => EventView::FilesRead(pair_views(files@)),
            Event::Built { success, output } => EventView::Built {
                success: *success,
                output: output@,
            },
            Event::IoFailed(reason) => EventView::IoFailed(reason@),
        }
    }
}

/// The step that the machine makes on an event. The event that a phase
/// waits for is answered as the phase says. A failed call of the
/// generator fails the job with what the error says, but for a failed fix,
/// after which the next fix begins. A failure of reading, writing or
/// running fails the job, and so does an event that the phase does not
/// wait for.
pub open spec fn step_of(plan: JobPlan, run: RunView, event: EventView) -> StepView {
    match (run.phase, event) {
        (Phase::Start, EventView::Begin) => started(plan, run),
        (Phase::Test, EventView::Generated(r)) => test_generated(plan, run, r),
        (Phase::Targets, EventView::FilesRead(files)) => targets_read(plan, run, files),
        (Phase::Split(k), EventView::Generated(r)) => split_generated(plan, run, k, r),
        (Phase::Sequential(k), EventView::Generated(r)) => sequential_generated(plan, run, k, r),
        (Phase::Edit, EventView::Generated(r)) => edits_generated(plan, run, r),
        (Phase::Replace, EventView::Generated(r)) => replace_generated(plan, run, r),
        (Phase::Build, EventView::Built { success, output }) => built(plan, run, success, output),
        (Phase::FixFiles(k), EventView::FilesRead(files)) => fix_files_read(plan, run, k, files),
        (Phase::Fix(k), EventView::Generated(r)) => fix_generated(plan, run, k, r),
        (Phase::Fix(k), EventView::GenerationFailed(e)) => fix_begun(plan, run, following(k)),
        (Phase::Rebuild(k), EventView::Built { success, output }) => rebuilt(
            plan,
            run,
            k,
            success,
            output,
        ),
        (Phase::Verdict, EventView::Generated(r)) => first_verdict(plan, run, r),
        (Phase::Retry, EventView::Generated(r)) => retried(plan, run, r),
        (Phase::SecondVerdict, EventView::Generated(r)) => second_verdict(plan, run, r),
        (_, EventView::GenerationFailed(e)) => failed_job(run, "Ollama error: "@ + e),
        (_, EventView::IoFailed(reason)) => failed_job(run, "IO error: "@ + reason),
        _ => failed_job(run, "IO error: "@ + "unexpected event"@),
    }
}

/// A state and an action as one step.
pub open spec fn step_view(r: (RunState, Action)) -> StepView {
    StepView { run: r.0@, action: r.1@ }
}

fn paths(files: &Vec<(String, String)>) -> (r: Vec<String>)
    ensures
        strs(r@) == paths_of(pair_views(files@)),
{
    let mut r: Vec<String> = Vec::new();
    let mut i: usize = 0;
    assert(strs(r@) =~= paths_of(pair_views(files@)).take(0));
    while i < files.len()
        invariant
            i <= files.len(),
            strs(r@) == paths_of(pair_views(files@)).take(i as int),
        decreases files.len() - i,
    {
        let p = files[i].0.clone();
        proof {
            lemma_strs_push(r@, p);
            assert(strs(r@).push(p@) =~= paths_of(pair_views(files@)).take(i + 1));
        }
        r.push(p);
        i += 1;
    }
    assert(paths_of(pair_views(files@)).take(files.len() as int) =~= paths_of(
        pair_views(files@),
    ));
    r
}

fn copy_files(files: &Vec<(String, String)>) -> (r: Vec<(String, String)>)
    ensures
        pair_views(r@) == pair_views(files@),
{
    let mut r: Vec<(String, String)> = Vec::new();
    let mut i: usize = 0;
    assert(pair_views(r@) =~= pair_views(files@).take(0));
    while i < files.len()
        invariant
            i <= files.len(),
            pair_views(r@) == pair_views(files@).take(i as int),
        decreases files.len() - i,
    {
        let ghost before = pair_views(r@);
        r.push((files[i].0.clone(), files[i].1.clone()));
        assert(pair_views(r@) =~= before.push((files@[i as int].0@, files@[i as int].1@)));
        assert(pair_views(r@) =~= pair_views(files@).take(i + 1));
        i += 1;
    }
    assert(pair_views(files@).take(files.len() as int) =~= pair_views(files@));
    r
}

fn rest_of(v: &Vec<String>, from: usize) -> (r: Vec<String>)
    requires
        from <= v.len(),
    ensures
        strs(r@) == strs(v@).skip(from as int),
{
    let mut r: Vec<String> = Vec::new();
    let mut i: usize = from;
    assert(strs(r@) =~= strs(v@).subrange(from as int, from as int));
    while i < v.len()
        invariant
            from <= i <= v.len(),
            strs(r@) == strs(v@).subrange(from as int, i as int),
        decreases v.len() - i,
    {
        let p = v[i].clone();
        proof {
            lemma_strs_push(r@, p);
            assert(strs(r@).push(p@) =~= strs(v@).subrange(from as int, i + 1));
        }
        r.push(p);
        i += 1;
    }
    assert(strs(v@).subrange(from as int, v.len() as int) =~= strs(v@).skip(from as int));
    r
}

fn no_updates() -> (r: Vec<StatusUpdate>)
    ensures
        update_views(r@) == Seq::<UpdateView>::empty(),
{
    let r: Vec<StatusUpdate> = Vec::new();
    assert(update_views(r@) =~= Seq::<UpdateView>::empty());
    r
}

fn one_update(u: StatusUpdate) -> (r: Vec<StatusUpdate>)
    ensures
        update_views(r@) == seq![u@],
{
    let mut r: Vec<StatusUpdate> = Vec::new();
    r.push(u);
    assert(update_views(r@) =~= seq![u@]);
    r
}

fn with_update(updates: Vec<StatusUpdate>, u: StatusUpdate) -> (r: Vec<StatusUpdate>)
    ensures
        update_views(r@) == update_views(updates@).push(u@),
{
    let mut r = updates;
    r.push(u);
    assert(update_views(r@) =~= update_views(updates@).push(u@));
    r
}

fn no_writes() -> (r: Vec<(String, String)>)
    ensures
        pair_views(r@) == Seq::<(Seq<char>, Seq<char>)>::empty(),
{
    let r: Vec<(String, String)> = Vec::new();
    assert(pair_views(r@) =~= Seq::<(Seq<char>, Seq<char>)>::empty());
    r
}

fn one_write(path: String, content: String) -> (r: Vec<(String, String)>)
    ensures
        pair_views(r@) == seq![(path@, content@)],
{
    let mut r: Vec<(String, String)> = Vec::new();
    r.push((path, content));
    assert(pair_views(r@) =~= seq![(path@, content@)]);
    r
}

fn phase_set(run: RunState, phase: Phase) -> (r: RunState)
    ensures
        r@ == (RunView { phase, ..run@ }),
{
    let mut r = run;
    r.phase = phase;
    r
}

fn complete(
    plan: &JobPlan,
    run: RunState,
    updates: Vec<StatusUpdate>,
    writes: Vec<(String, String)>,
    status: JobStatus,
    error: Option<String>,
) -> (r: (RunState, Action))
    ensures
        step_view(r) == completed(
            *plan,
            run@,
            update_views(updates@),
            pair_views(writes@),
            status,
            opt_text(error),
        ),
{
    let result = JobResult {
        job_id: plan.job.id.clone(),
        status,
        error,
        output_paths: paths(&run.generated),
        output_lines: count_total_lines(run.generated.as_slice()),
        test_path: match &run.test_path {
            Some(p) => Some(p.clone()),
            None => None,
        },
        test_lines: run.test_lines,
        retry_attempted: run.retry_attempted,
        implicit_context_files: Vec::new(),
    };
    assert(strs(result.implicit_context_files@) =~= Seq::<Seq<char>>::empty());
    let action = Action {
        updates: with_update(updates, StatusUpdate::MarkRan),
        writes,
        request: Request::Finish(Ok(result)),
    };
    (phase_set(run, Phase::Done), action)
}

fn fail(
    run: RunState,
    updates: Vec<StatusUpdate>,
    writes: Vec<(String, String)>,
    error: WorkSplitError,
) -> (r: (RunState, Action))
    ensures
        step_view(r) == failed(run@, update_views(updates@), pair_views(writes@), error.text()),
{
    let updates = with_update(updates, StatusUpdate::Fail(error.message()));
    let action = Action {
        updates: with_update(updates, StatusUpdate::MarkRan),
        writes,
        request: Request::Finish(Err(error)),
    };
    (phase_set(run, Phase::Done), action)
}

fn fail_job(run: RunState, error: WorkSplitError) -> (r: (RunState, Action))
    ensures
        step_view(r) == failed_job(run@, error.text()),
{
    fail(run, no_updates(), no_writes(), error)
}

fn ask(
    run: RunState,
    phase: Phase,
    updates: Vec<StatusUpdate>,
    writes: Vec<(String, String)>,
    system: &str,
    prompt: String,
    stream: bool,
) -> (r: (RunState, Action))
    ensures
        step_view(r) == asking(
            run@,
            phase,
            update_views(updates@),
            pair_views(writes@),
            system@,
            prompt@,
            stream,
        ),
{
    let action = Action {
        updates,
        writes,
        request: Request::Generate { system: system.to_owned(), prompt, stream },
    };
    (phase_set(run, phase), action)
}

fn begin_verification(
    plan: &JobPlan,
    run: RunState,
    updates: Vec<StatusUpdate>,
    writes: Vec<(String, String)>,
) -> (r: (RunState, Action))
    ensures
        step_view(r) == verification_begun(
            *plan,
            run@,
            update_views(updates@),
            pair_views(writes@),
        ),
{
    if !plan.job.metadata.verify {
        let updates = with_update(updates, StatusUpdate::Status(JobStatus::Pass));
        complete(plan, run, updates, writes, JobStatus::Pass, None)
    } else {
        let system = if plan.job.metadata.is_edit_mode() {
            plan.prompts.verify_edit.as_str()
        } else {
            plan.prompts.verify.as_str()
        };
        let prompt = assemble_verification_prompt_multi(
            system,
            plan.context_files.as_slice(),
            run.generated.as_slice(),
            plan.job.instructions.as_str(),
        );
        let updates = with_update(updates, StatusUpdate::Status(JobStatus::PendingVerification));
        ask(run, Phase::Verdict, updates, writes, SYSTEM_PROMPT_VERIFY, prompt, false)
    }
}

fn begin_build(
    plan: &JobPlan,
    run: RunState,
    updates: Vec<StatusUpdate>,
    writes: Vec<(String, String)>,
) -> (r: (RunState, Action))
    ensures
        step_view(r) == build_begun(*plan, run@, update_views(updates@), pair_views(writes@)),
{
    if plan.settings.verify_build {
        if let Some(command) = &plan.settings.build_command {
            let action = Action {
                updates,
                writes,
                request: Request::RunBuild { command: command.clone() },
            };
            return (phase_set(run, Phase::Build), action);
        }
    }
    begin_verification(plan, run, updates, writes)
}

fn joined_paths(files: &Vec<(String, String)>) -> (r: Vec<char>)
    ensures
        r@ == join(paths_of(pair_views(files@)), seq!['\n']),
{
    let mut parts: Vec<Vec<char>> = Vec::new();
    let mut i: usize = 0;
    let ghost all = paths_of(pair_views(files@));
    assert(rows(parts@) =~= all.take(0));
    while i < files.len()
        invariant
            i <= files.len(),
            all == paths_of(pair_views(files@)),
            rows(parts@) == all.take(i as int),
        decreases files.len() - i,
    {
        let p = chars_of(files[i].0.as_str());
        proof {
            lemma_rows_push(parts@, p);
            assert(rows(parts@).push(p@) =~= all.take(i + 1));
        }
        parts.push(p);
        i += 1;
    }
    assert(all.take(files.len() as int) =~= all);
    let mut sep: Vec<char> = Vec::new();
    sep.push('\n');
    assert(sep@ =~= seq!['\n']);
    join_of(&parts, &sep)
}

fn begin_fix(plan: &JobPlan, run: RunState, attempt: usize) -> (r: (RunState, Action))
    ensures
        step_view(r) == fix_begun(*plan, run@, attempt),
{
    if attempt > plan.settings.auto_fix_attempts || plan.prompts.fix.is_none()
        || plan.settings.build_command.is_none() {
        let mut text: Vec<char> = Vec::new();
        append_str(&mut text, "Build failed after ");
        append_decimal(&mut text, plan.settings.auto_fix_attempts);
        append_str(&mut text, " auto-fix attempts:\n\nFiles:\n");
        append(&mut text, &joined_paths(&run.generated));
        append_str(&mut text, "\n\nFinal error:\n");
        append_str(&mut text, run.build_output.as_str());
        assert(text@ =~= fixes_exhausted(
            plan.settings.auto_fix_attempts,
            run@.generated,
            run@.build_output,
        ));
        let command = match &plan.settings.build_command {
            Some(c) => c.clone(),
            None => String::new(),
        };
        let error = WorkSplitError::BuildFailed { command, output: string_of(&text) };
        assert(error.text() =~= build_error_text(
            match plan.settings.build_command {
                Some(c) => c@,
                None => Seq::empty(),
            },
            fixes_exhausted(plan.settings.auto_fix_attempts, run@.generated, run@.build_output),
        ));
        fail(run, no_updates(), no_writes(), error)
    } else {
        let action = Action {
            updates: no_updates(),
            writes: no_writes(),
            request: Request::ReadFiles { paths: paths(&run.generated), required: false },
        };
        (phase_set(run, Phase::FixFiles(attempt)), action)
    }
}

fn next_number(attempt: usize) -> (r: usize)
    ensures
        r == following(attempt),
{
    if attempt < usize::MAX {
        attempt + 1
    } else {
        attempt
    }
}

fn ask_sequential(
    plan: &JobPlan,
    run: RunState,
    k: usize,
    updates: Vec<StatusUpdate>,
    writes: Vec<(String, String)>,
) -> (r: (RunState, Action))
    ensures
        step_view(r) == sequential_asked(
            *plan,
            run@,
            k,
            update_views(updates@),
            pair_views(writes@),
        ),
{
    let outputs = plan.job.metadata.get_output_files();
    assert(strs(outputs@).len() == outputs@.len());
    if k < outputs.len() {
        let remaining = rest_of(&outputs, k + 1);
        assert(strs(outputs@)[k as int] == outputs@[k as int]@);
        let prompt = assemble_sequential_creation_prompt(
            plan.prompts.create.as_str(),
            plan.context_files.as_slice(),
            run.generated.as_slice(),
            plan.job.instructions.as_str(),
            outputs[k].as_str(),
            remaining.as_slice(),
        );
        ask(
            run,
            Phase::Sequential(k),
            updates,
            writes,
            SYSTEM_PROMPT_CREATE,
            prompt,
            plan.settings.stream_output,
        )
    } else {
        begin_build(plan, run, updates, writes)
    }
}

fn ask_split(
    plan: &JobPlan,
    run: RunState,
    k: usize,
    updates: Vec<StatusUpdate>,
    writes: Vec<(String, String)>,
) -> (r: (RunState, Action))
    ensures
        step_view(r) == split_asked(*plan, run@, k, update_views(updates@), pair_views(writes@)),
{
    let outputs = plan.job.metadata.get_output_files();
    assert(strs(outputs@).len() == outputs@.len());
    if k < outputs.len() {
        if let Some(split_prompt) = &plan.prompts.split {
            let remaining = rest_of(&outputs, k + 1);
            assert(strs(outputs@)[k as int] == outputs@[k as int]@);
            let empty = String::new();
            let target_path: &String = match &plan.job.metadata.target_file {
                Some(t) => t,
                None => &empty,
            };
            let target_content: &str = if run.targets.len() > 0 {
                assert(pair_views(run.targets@)[0].1 == run.targets@[0].1@);
                run.targets[0].1.as_str()
            } else {
                ""
            };
            proof {
                reveal_strlit("");
                assert(""@ =~= Seq::<char>::empty());
            }
            let prompt = assemble_sequential_split_prompt(
                split_prompt.as_str(),
                (target_path, target_content),
                plan.context_files.as_slice(),
                run.generated.as_slice(),
                plan.job.instructions.as_str(),
                outputs[k].as_str(),
                remaining.as_slice(),
            );
            return ask(
                run,
                Phase::Split(k),
                updates,
                writes,
                SYSTEM_PROMPT_CREATE,
                prompt,
                plan.settings.stream_output,
            );
        }
    }
    begin_build(plan, run, updates, writes)
}

fn missing_prompt(plan: &JobPlan, name: &str) -> (e: WorkSplitError)
    ensures
        e.text() == prompt_missing(*plan, name@),
{
    WorkSplitError::SystemPromptNotFound(join_path(plan.settings.jobs_dir.as_str(), name))
}

fn begin_work(
    plan: &JobPlan,
    run: RunState,
    updates: Vec<StatusUpdate>,
    writes: Vec<(String, String)>,
) -> (r: (RunState, Action))
    ensures
        step_view(r) == work_begun(*plan, run@, update_views(updates@), pair_views(writes@)),
{
    if plan.job.metadata.is_split_mode() {
        if plan.prompts.split.is_none() {
            return fail(run, updates, writes, missing_prompt(plan, "_systemprompt_split.md"));
        }
        match &plan.job.metadata.target_file {
            None => fail(
                run,
                updates,
                writes,
                WorkSplitError::JobValidation(JobValidationError::SplitMissingTargetFile),
            ),
            Some(target) => {
                let mut list: Vec<String> = Vec::new();
                list.push(target.clone());
                assert(strs(list@) =~= seq![target@]);
                let action = Action {
                    updates,
                    writes,
                    request: Request::ReadFiles { paths: list, required: true },
                };
                (phase_set(run, Phase::Targets), action)
            },
        }
    } else if plan.job.metadata.is_edit_mode() {
        let action = Action {
            updates,
            writes,
            request: Request::ReadFiles {
                paths: plan.job.metadata.get_target_files(),
                required: true,
            },
        };
        (phase_set(run, Phase::Targets), action)
    } else if plan.job.metadata.is_sequential() {
        ask_sequential(plan, run, 0, updates, writes)
    } else {
        let prompt = assemble_creation_prompt(
            plan.prompts.create.as_str(),
            plan.context_files.as_slice(),
            plan.job.instructions.as_str(),
            plan.job.metadata.output_path().as_str(),
        );
        ask(
            run,
            Phase::Replace,
            updates,
            writes,
            SYSTEM_PROMPT_CREATE,
            prompt,
            plan.settings.stream_output,
        )
    }
}

/// The tokens that a text is estimated at.
fn tokens(s: &str) -> (r: usize)
    ensures
        r == tokens_of(s@),
        r <= 0x4000_0000_0000_0000,
{
    let n = s.as_bytes().len();
    assert(n <= usize::MAX);
    assert(usize::MAX <= 0xffff_ffff_ffff_ffff) by {
        assert(usize::BITS == 32 || usize::BITS == 64);
    }
    n / 4
}

/// The tokens that a call for a job's files is estimated at.
pub fn estimate_call(
    system_prompt: &str,
    context_files: &[(String, String)],
    instructions: &str,
) -> (r: u128)
    ensures
        r == estimated_tokens(system_prompt@, pair_views(context_files@), instructions@),
{
    let ghost all = pair_views(context_files@);
    let mut total: u128 = 0;
    let mut i: usize = 0;
    assert(all.take(0) =~= Seq::<(Seq<char>, Seq<char>)>::empty());
    while i < context_files.len()
        invariant
            i <= context_files.len(),
            all == pair_views(context_files@),
            total == file_tokens(all.take(i as int)),
            total <= i * 0x4000_0000_0000_0000,
        decreases context_files.len() - i,
    {
        assert(all.take(i + 1).drop_last() == all.take(i as int));
        assert(all.take(i + 1).last() == (context_files@[i as int].0@, context_files@[i as int].1@));
        let t = tokens(context_files[i].1.as_str());
        assert((i + 1) * 0x4000_0000_0000_0000 == i * 0x4000_0000_0000_0000
            + 0x4000_0000_0000_0000) by (nonlinear_arith);
        assert(i * 0x4000_0000_0000_0000 <= 0xffff_ffff_ffff_ffff * 0x4000_0000_0000_0000) by (nonlinear_arith)
            requires
                i <= 0xffff_ffff_ffff_ffff,
        ;
        total = total + t as u128;
        i += 1;
    }
    assert(all.take(context_files.len() as int) == all);
    assert(i * 0x4000_0000_0000_0000 <= 0xffff_ffff_ffff_ffff * 0x4000_0000_0000_0000) by (nonlinear_arith)
        requires
            i <= 0xffff_ffff_ffff_ffff,
    ;
    total + tokens(system_prompt) as u128 + tokens(instructions) as u128 + 1200
}

fn cap(n: u128) -> (r: usize)
    ensures
        r == capped(n as nat),
{
    if n > usize::MAX as u128 {
        usize::MAX
    } else {
        n as usize
    }
}

fn start(plan: &JobPlan, run: RunState) -> (r: (RunState, Action))
    ensures
        step_view(r) == started(*plan, run@),
{
    let estimate = estimate_call(
        plan.prompts.create.as_str(),
        plan.context_files.as_slice(),
        plan.job.instructions.as_str(),
    );
    if estimate > TOKEN_ERROR_THRESHOLD as u128 {
        return fail(
            run,
            no_updates(),
            no_writes(),
            WorkSplitError::TokenBudgetExceeded { estimated: cap(estimate), max: CONTEXT_LIMIT },
        );
    }
    if plan.job.metadata.is_tdd_enabled() {
        match &plan.prompts.test {
            None => fail(
                run,
                one_update(StatusUpdate::Status(JobStatus::PendingWork)),
                no_writes(),
                missing_prompt(plan, "_systemprompt_test.md"),
            ),
            Some(system) => {
                let test_path = match plan.job.metadata.test_path() {
                    Some(p) => p,
                    None => String::new(),
                };
                let prompt = assemble_test_prompt(
                    system.as_str(),
                    plan.context_files.as_slice(),
                    plan.job.instructions.as_str(),
                    test_path.as_str(),
                );
                let mut next = run;
                next.test_path = Some(test_path);
                ask(
                    next,
                    Phase::Test,
                    one_update(StatusUpdate::Status(JobStatus::PendingTest)),
                    no_writes(),
                    SYSTEM_PROMPT_TEST,
                    prompt,
                    plan.settings.stream_output,
                )
            },
        }
    } else {
        begin_work(
            plan,
            run,
            one_update(StatusUpdate::Status(JobStatus::PendingWork)),
            no_writes(),
        )
    }
}

fn on_test(plan: &JobPlan, run: RunState, response: &str) -> (r: (RunState, Action))
    ensures
        step_view(r) == test_generated(*plan, run@, response@),
{
    let code = extract_code(response);
    let path = match &run.test_path {
        Some(p) => p.clone(),
        None => String::new(),
    };
    let mut next = run;
    next.test_lines = Some(count_lines(code.as_str()));
    begin_work(
        plan,
        next,
        one_update(StatusUpdate::Status(JobStatus::PendingWork)),
        one_write(path, code),
    )
}

fn on_targets(plan: &JobPlan, run: RunState, files: Vec<(String, String)>) -> (r: (
    RunState,
    Action,
))
    ensures
        step_view(r) == targets_read(*plan, run@, pair_views(files@)),
{
    let mut next = run;
    next.targets = files;
    if plan.job.metadata.is_split_mode() {
        ask_split(plan, next, 0, no_updates(), no_writes())
    } else {
        let prompt = assemble_edit_prompt(
            plan.prompts.edit.as_str(),
            next.targets.as_slice(),
            plan.context_files.as_slice(),
            plan.job.instructions.as_str(),
        );
        ask(
            next,
            Phase::Edit,
            no_updates(),
            no_writes(),
            SYSTEM_PROMPT_EDIT,
            prompt,
            plan.settings.stream_output,
        )
    }
}

fn first_file_content(response: &str) -> (r: String)
    ensures
        r@ == first_content(response@),
{
    let files = extract_code_files(response);
    assert(file_views(files@)[0] == files@[0]@);
    files[0].content.clone()
}

fn add_generated(run: RunState, path: String, content: String) -> (r: RunState)
    ensures
        r@ == (RunView { generated: run@.generated.push((path@, content@)), ..run@ }),
{
    let mut next = run;
    let ghost before = pair_views(next.generated@);
    next.generated.push((path, content));
    assert(pair_views(next.generated@) =~= before.push((path@, content@)));
    next
}

fn on_split(plan: &JobPlan, run: RunState, k: usize, response: &str) -> (r: (RunState, Action))
    ensures
        step_view(r) == split_generated(*plan, run@, k, response@),
{
    let outputs = plan.job.metadata.get_output_files();
    assert(strs(outputs@).len() == outputs@.len());
    if k >= outputs.len() {
        return begin_build(plan, run, no_updates(), no_writes());
    }
    assert(strs(outputs@)[k as int] == outputs@[k as int]@);
    let content = first_file_content(response);
    if content.as_str().is_empty() {
        let mut text: Vec<char> = Vec::new();
        append_str(&mut text, "Split produced no content for ");
        append_str(&mut text, outputs[k].as_str());
        assert(text@ =~= split_empty(outputs@[k as int]@));
        let error = WorkSplitError::EditFailed(string_of(&text));
        return fail_job(run, error);
    }
    let writes = one_write(outputs[k].clone(), content.clone());
    let next = add_generated(run, outputs[k].clone(), content);
    ask_split(plan, next, next_number(k), no_updates(), writes)
}

fn on_sequential(plan: &JobPlan, run: RunState, k: usize, response: &str) -> (r: (
    RunState,
    Action,
))
    ensures
        step_view(r) == sequential_generated(*plan, run@, k, response@),
{
    let outputs = plan.job.metadata.get_output_files();
    assert(strs(outputs@).len() == outputs@.len());
    if k >= outputs.len() {
        return begin_build(plan, run, no_updates(), no_writes());
    }
    assert(strs(outputs@)[k as int] == outputs@[k as int]@);
    let content = first_file_content(response);
    let writes = one_write(outputs[k].clone(), content.clone());
    let next = add_generated(run, outputs[k].clone(), content);
    ask_sequential(plan, next, next_number(k), no_updates(), writes)
}

/// Gives each file of an answer its path: its own, or `default_path` where
/// it names none.
pub fn place_files(files: &Vec<ExtractedFile>, default_path: &str) -> (r: Vec<(String, String)>)
    ensures
        pair_views(r@) == placed_files(file_views(files@), default_path@),
{
    let mut r: Vec<(String, String)> = Vec::new();
    let mut i: usize = 0;
    let ghost all = placed_files(file_views(files@), default_path@);
    assert(pair_views(r@) =~= all.take(0));
    while i < files.len()
        invariant
            i <= files.len(),
            all == placed_files(file_views(files@), default_path@),
            pair_views(r@) == all.take(i as int),
        decreases files.len() - i,
    {
        let path = match &files[i].path {
            Some(p) => p.clone(),
            None => default_path.to_owned(),
        };
        let ghost before = pair_views(r@);
        let content = files[i].content.clone();
        r.push((path, content));
        assert(pair_views(r@) =~= before.push((path@, content@)));
        assert(pair_views(r@) =~= all.take(i + 1));
        i += 1;
    }
    assert(all.take(files.len() as int) =~= all);
    r
}

fn on_replace(plan: &JobPlan, run: RunState, response: &str) -> (r: (RunState, Action))
    ensures
        step_view(r) == replace_generated(*plan, run@, response@),
{
    let files = extract_code_files(response);
    let placed = place_files(&files, plan.job.metadata.output_path().as_str());
    let writes = copy_files(&placed);
    let mut next = run;
    next.generated = placed;
    begin_build(plan, next, no_updates(), writes)
}

fn on_edits(plan: &JobPlan, run: RunState, response: &str) -> (r: (RunState, Action))
    ensures
        step_view(r) == edits_generated(*plan, run@, response@),
{
    let parsed = parse_edit_instructions(response);
    proof {
        lemma_targets_edited(run.targets@, edit_views(parsed.edits@));
    }
    match process_edits(run.targets.as_slice(), &parsed) {
        Err(e) => fail_job(run, e),
        Ok(res) => {
            let writes = copy_files(&res.generated_files);
            let mut next = run;
            next.generated = res.generated_files;
            match res.partial_state {
                Some(state) => complete(
                    plan,
                    next,
                    one_update(StatusUpdate::Partial(state)),
                    writes,
                    JobStatus::Partial,
                    None,
                ),
                None => begin_build(plan, next, no_updates(), writes),
            }
        },
    }
}

fn on_built(plan: &JobPlan, run: RunState, success: bool, output: String) -> (r: (
    RunState,
    Action,
))
    ensures
        step_view(r) == built(*plan, run@, success, output@),
{
    if success {
        return begin_verification(plan, run, no_updates(), no_writes());
    }
    if !plan.settings.auto_fix || plan.settings.build_command.is_none() {
        let mut text: Vec<char> = Vec::new();
        append_str(&mut text, "Build failed after generating files:\n\nFiles generated:\n");
        append(&mut text, &joined_paths(&run.generated));
        append_str(&mut text, "\n\nBuild output:\n");
        append_str(&mut text, output.as_str());
        assert(text@ =~= build_failure(run@.generated, output@));
        let command = match &plan.settings.build_command {
            Some(c) => c.clone(),
            None => String::new(),
        };
        let error = WorkSplitError::BuildFailed { command, output: string_of(&text) };
        assert(error.text() =~= build_error_text(
            match plan.settings.build_command {
                Some(c) => c@,
                None => Seq::empty(),
            },
            build_failure(run@.generated, output@),
        ));
        return fail(run, no_updates(), no_writes(), error);
    }
    let mut next = run;
    next.build_output = output;
    begin_fix(plan, next, 1)
}

/// Assembles the prompt that asks for a fix of errors of the given kind.
pub fn assemble_fix_prompt(kind: ErrorType, output: &str, files: &Vec<(String, String)>) -> (r:
    String)
    ensures
        r@ == fix_prompt(kind, output@, pair_views(files@)),
{
    let mut out: Vec<char> = Vec::new();
    append_str(&mut out, kind.prompt_header());
    append_str(&mut out, "\n\n```\n");
    append(&mut out, &trim_of(&chars_of(output)));
    append_str(&mut out, "\n```\n\n");
    append_str(&mut out, kind.fix_instructions());
    append_str(&mut out, "\n\n");
    let ghost head = out@;
    let ghost all = pair_views(files@);
    let mut i: usize = 0;
    assert(out@ =~= head + source_blocks(all.take(0)));
    while i < files.len()
        invariant
            i <= files.len(),
            all == pair_views(files@),
            out@ == head + source_blocks(all.take(i as int)),
        decreases files.len() - i,
    {
        assert(all.take(i + 1).drop_last() == all.take(i as int));
        assert(all.take(i + 1).last() == (files@[i as int].0@, files@[i as int].1@));
        append_str(&mut out, "## Source File: ");
        append_str(&mut out, files[i].0.as_str());
        append_str(&mut out, "\n\n```\n");
        append_str(&mut out, files[i].1.as_str());
        append_str(&mut out, "\n```\n\n");
        i += 1;
        assert(out@ =~= head + source_blocks(all.take(i as int)));
    }
    assert(all.take(files.len() as int) == all);
    append_str(
        &mut out,
        "Output the complete fixed file(s) using ~~~worksplit:path/to/file delimiters.\n",
    );
    assert(out@ =~= fix_prompt(kind, output@, all));
    string_of(&out)
}

fn on_fix_files(plan: &JobPlan, run: RunState, attempt: usize, files: Vec<(String, String)>) -> (r:
    (RunState, Action))
    ensures
        step_view(r) == fix_files_read(*plan, run@, attempt, pair_views(files@)),
{
    match &plan.prompts.fix {
        None => begin_fix(plan, run, next_number(attempt)),
        Some(system) => {
            let prompt = assemble_fix_prompt(ErrorType::Build, run.build_output.as_str(), &files);
            let mut next = run;
            next.targets = files;
            ask(
                next,
                Phase::Fix(attempt),
                no_updates(),
                no_writes(),
                system.as_str(),
                prompt,
                plan.settings.stream_output,
            )
        },
    }
}

fn writes_of_fix(files: &Vec<ExtractedFile>, shown: &Vec<(String, String)>) -> (r: Vec<
    (String, String),
>)
    ensures
        pair_views(r@) == fix_writes(file_views(files@), pair_views(shown@)),
{
    let mut r: Vec<(String, String)> = Vec::new();
    let mut i: usize = 0;
    let ghost all = file_views(files@);
    assert(pair_views(r@) =~= fix_writes(all.take(0), pair_views(shown@)));
    while i < files.len()
        invariant
            i <= files.len(),
            all == file_views(files@),
            pair_views(r@) == fix_writes(all.take(i as int), pair_views(shown@)),
        decreases files.len() - i,
    {
        assert(all.take(i + 1).drop_last() == all.take(i as int));
        assert(all.take(i + 1).last() == files@[i as int]@);
        let ghost before = pair_views(r@);
        match &files[i].path {
            Some(p) => {
                let content = files[i].content.clone();
                r.push((p.clone(), content));
                assert(pair_views(r@) =~= before.push((p@, content@)));
            },
            None => {
                if shown.len() == 1 {
                    let content = files[i].content.clone();
                    r.push((shown[0].0.clone(), content));
                    assert(pair_views(r@) =~= before.push((shown@[0].0@, content@)));
                }
            },
        }
        i += 1;
    }
    assert(all.take(files.len() as int) == all);
    r
}

fn on_fix(plan: &JobPlan, run: RunState, attempt: usize, response: &str) -> (r: (
    RunState,
    Action,
))
    ensures
        step_view(r) == fix_generated(*plan, run@, attempt, response@),
{
    let files = extract_code_files(response);
    let writes = writes_of_fix(&files, &run.targets);
    if writes.len() > 0 {
        if let Some(command) = &plan.settings.build_command {
            let action = Action {
                updates: no_updates(),
                writes,
                request: Request::RunBuild { command: command.clone() },
            };
            return (phase_set(run, Phase::Rebuild(attempt)), action);
        }
    }
    begin_fix(plan, run, next_number(attempt))
}

fn on_rebuilt(plan: &JobPlan, run: RunState, attempt: usize, success: bool, output: String) -> (r:
    (RunState, Action))
    ensures
        step_view(r) == rebuilt(*plan, run@, attempt, success, output@),
{
    if success {
        begin_verification(plan, run, no_updates(), no_writes())
    } else {
        let mut next = run;
        next.build_output = output;
        begin_fix(plan, next, next_number(attempt))
    }
}

fn judge(plan: &JobPlan, run: RunState, verdict: VerificationResult, reason: Option<String>) -> (r:
    (RunState, Action))
    ensures
        step_view(r) == judged(*plan, run@, verdict, opt_text(reason)),
{
    let updates = if verdict.is_pass() {
        one_update(StatusUpdate::Status(JobStatus::Pass))
    } else {
        match &reason {
            Some(text) => one_update(StatusUpdate::Fail(text.clone())),
            None => one_update(StatusUpdate::Status(JobStatus::Fail)),
        }
    };
    complete(plan, run, updates, no_writes(), verdict.to_job_status(), reason)
}

fn on_first_verdict(plan: &JobPlan, run: RunState, response: &str) -> (r: (RunState, Action))
    ensures
        step_view(r) == first_verdict(*plan, run@, response@),
{
    let (verdict, reason) = parse_verification(response);
    if verdict.is_pass() {
        judge(plan, run, verdict, reason)
    } else {
        let feedback = match reason {
            Some(text) => text,
            None => String::new(),
        };
        let prompt = assemble_retry_prompt_multi(
            plan.prompts.create.as_str(),
            plan.context_files.as_slice(),
            plan.job.instructions.as_str(),
            run.generated.as_slice(),
            feedback.as_str(),
        );
        let mut next = run;
        next.retry_attempted = true;
        ask(next, Phase::Retry, no_updates(), no_writes(), SYSTEM_PROMPT_RETRY, prompt, true)
    }
}

fn files_with_names(files: &Vec<ExtractedFile>) -> (r: Vec<(String, String)>)
    ensures
        pair_views(r@) == named_files(file_views(files@)),
{
    let mut r: Vec<(String, String)> = Vec::new();
    let mut i: usize = 0;
    let ghost all = file_views(files@);
    assert(pair_views(r@) =~= named_files(all.take(0)));
    while i < files.len()
        invariant
            i <= files.len(),
            all == file_views(files@),
            pair_views(r@) == named_files(all.take(i as int)),
        decreases files.len() - i,
    {
        assert(all.take(i + 1).drop_last() == all.take(i as int));
        assert(all.take(i + 1).last() == files@[i as int]@);
        let ghost before = pair_views(r@);
        if let Some(p) = &files[i].path {
            let content = files[i].content.clone();
            r.push((p.clone(), content));
            assert(pair_views(r@) =~= before.push((p@, content@)));
        }
        i += 1;
    }
    assert(all.take(files.len() as int) == all);
    r
}

fn on_retry(plan: &JobPlan, run: RunState, response: &str) -> (r: (RunState, Action))
    ensures
        step_view(r) == retried(*plan, run@, response@),
{
    let files = files_with_names(&extract_code_files(response));
    let writes = copy_files(&files);
    let system = if plan.job.metadata.is_edit_mode() {
        plan.prompts.verify_edit.as_str()
    } else {
        plan.prompts.verify.as_str()
    };
    let prompt = assemble_verification_prompt_multi(
        system,
        plan.context_files.as_slice(),
        files.as_slice(),
        plan.job.instructions.as_str(),
    );
    let mut next = run;
    next.generated = files;
    ask(next, Phase::SecondVerdict, no_updates(), writes, SYSTEM_PROMPT_VERIFY, prompt, false)
}

fn on_second_verdict(plan: &JobPlan, run: RunState, response: &str) -> (r: (RunState, Action))
    ensures
        step_view(r) == second_verdict(*plan, run@, response@),
{
    let (verdict, reason) = parse_verification(response);
    judge(plan, run, verdict, reason)
}

impl RunState {
    /// The state of a run that is to be started.
    pub fn new() -> (r: Self)
        ensures
            r.phase == Phase::Start,
            r.targets@.len() == 0,
            r.generated@.len() == 0,
            r.test_path is None,
            r.test_lines is None,
            r.build_output@.len() == 0,
            !r.retry_attempted,
    {
        RunState {
            phase: Phase::Start,
            targets: Vec::new(),
            generated: Vec::new(),
            test_path: None,
            test_lines: None,
            build_output: String::new(),
            retry_attempted: false,
        }
    }
}

/// Makes one step of a job's run: takes the state of the run and what the
/// driver reports, and gives the state after it and what the driver is to
/// do. A step that ends the run marks the job as run, and nothing follows
/// it; an error that ends the run fails the job.
pub fn step(plan: &JobPlan, run: RunState, event: Event) -> (r: (RunState, Action))
    ensures
        step_view(r) == step_of(*plan, run@, event@),
        (r.1.request is Finish) == (r.0.phase == Phase::Done),
        r.1.request is Finish ==> r.1.updates@.len() > 0 && r.1.updates@.last() is MarkRan,
        r.1.request matches Request::Finish(Err(e)) ==> r.1.updates@.len() > 1 && (
        r.1.updates@[r.1.updates@.len() - 2] matches StatusUpdate::Fail(m) && m@ == e.text()),
{
    let phase = run.phase;
    let r = match (phase, event) {
        (Phase::Start, Event::Begin) => start(plan, run),
        (Phase::Test, Event::Generated(response)) => on_test(plan, run, response.as_str()),
        (Phase::Targets, Event::FilesRead(files)) => on_targets(plan, run, files),
        (Phase::Split(k), Event::Generated(response)) => on_split(
            plan,
            run,
            k,
            response.as_str(),
        ),
        (Phase::Sequential(k), Event::Generated(response)) => on_sequential(
            plan,
            run,
            k,
            response.as_str(),
        ),
        (Phase::Edit, Event::Generated(response)) => on_edits(plan, run, response.as_str()),
        (Phase::Replace, Event::Generated(response)) => on_replace(plan, run, response.as_str()),
        (Phase::Build, Event::Built { success, output }) => on_built(plan, run, success, output),
        (Phase::FixFiles(k), Event::FilesRead(files)) => on_fix_files(plan, run, k, files),
        (Phase::Fix(k), Event::Generated(response)) => on_fix(plan, run, k, response.as_str()),
        (Phase::Fix(k), Event::GenerationFailed(e)) => begin_fix(plan, run, next_number(k)),
        (Phase::Rebuild(k), Event::Built { success, output }) => on_rebuilt(
            plan,
            run,
            k,
            success,
            output,
        ),
        (Phase::Verdict, Event::Generated(response)) => on_first_verdict(
            plan,
            run,
            response.as_str(),
        ),
        (Phase::Retry, Event::Generated(response)) => on_retry(plan, run, response.as_str()),
        (Phase::SecondVerdict, Event::Generated(response)) => on_second_verdict(
            plan,
            run,
            response.as_str(),
        ),
        (_, Event::GenerationFailed(e)) => fail_job(run, WorkSplitError::Ollama(e)),
        (_, Event::IoFailed(reason)) => fail_job(run, WorkSplitError::Io(reason)),
        _ => fail_job(run, WorkSplitError::Io("unexpected event".to_owned())),
    };
    proof {
        lemma_finish_marks_ran(*plan, run@, event@);
        assert(r.1@.updates.len() == r.1.updates@.len());
        if r.1.request is Finish {
            assert(r.1@.updates.last() == r.1.updates@.last()@);
        }
        if r.1@.request is Failed {
            let n = r.1.updates@.len();
            assert(r.1@.updates[n - 2] == r.1.updates@[n - 2]@);
        }
    }
    r
}

/// A step ends the run exactly where it leaves nothing to wait for; the
/// last update of a step that ends the run marks the job as run; and where
/// the run ends with an error, the update before it fails the job with
/// what the error says.
pub open spec fn ends_well(s: StepView) -> bool {
    let ends = s.action.request is Completed || s.action.request is Failed;
    let n = s.action.updates.len();
    &&& ends == (s.run.phase == Phase::Done)
    &&& ends ==> n > 0 && s.action.updates.last() is MarkRan
    &&& s.action.request matches RequestView::Failed(text) ==> n > 1 && s.action.updates[n - 2]
        == UpdateView::Fail(text)
}

proof fn lemma_verification_begun(
    plan: JobPlan,
    run: RunView,
    updates: Seq<UpdateView>,
    writes: Seq<(Seq<char>, Seq<char>)>,
)
    ensures
        ends_well(verification_begun(plan, run, updates, writes)),
{
}

proof fn lemma_build_begun(
    plan: JobPlan,
    run: RunView,
    updates: Seq<UpdateView>,
    writes: Seq<(Seq<char>, Seq<char>)>,
)
    ensures
        ends_well(build_begun(plan, run, updates, writes)),
{
    lemma_verification_begun(plan, run, updates, writes);
}

proof fn lemma_fix_begun(plan: JobPlan, run: RunView, attempt: usize)
    ensures
        ends_well(fix_begun(plan, run, attempt)),
{
}

proof fn lemma_sequential_asked(
    plan: JobPlan,
    run: RunView,
    k: usize,
    updates: Seq<UpdateView>,
    writes: Seq<(Seq<char>, Seq<char>)>,
)
    ensures
        ends_well(sequential_asked(plan, run, k, updates, writes)),
{
    lemma_build_begun(plan, run, updates, writes);
}

proof fn lemma_split_asked(
    plan: JobPlan,
    run: RunView,
    k: usize,
    updates: Seq<UpdateView>,
    writes: Seq<(Seq<char>, Seq<char>)>,
)
    ensures
        ends_well(split_asked(plan, run, k, updates, writes)),
{
    lemma_build_begun(plan, run, updates, writes);
}

proof fn lemma_work_begun(
    plan: JobPlan,
    run: RunView,
    updates: Seq<UpdateView>,
    writes: Seq<(Seq<char>, Seq<char>)>,
)
    ensures
        ends_well(work_begun(plan, run, updates, writes)),
{
    lemma_sequential_asked(plan, run, 0, updates, writes);
}

proof fn lemma_judged(
    plan: JobPlan,
    run: RunView,
    verdict: VerificationResult,
    reason: Option<Seq<char>>,
)
    ensures
        ends_well(judged(plan, run, verdict, reason)),
{
}

/// Every step ends well: it ends the run exactly where it leaves nothing
/// to wait for; then its last update marks the job as run, whatever came
/// of the job; and an error that ends the run is entered into the job's
/// record.
pub proof fn lemma_finish_marks_ran(plan: JobPlan, run: RunView, event: EventView)
    ensures
        ends_well(step_of(plan, run, event)),
{
    match (run.phase, event) {
        (Phase::Start, EventView::Begin) => {
            let m = plan.job.metadata;
            if m.test_file is None {
                lemma_work_begun(
                    plan,
                    run,
                    seq![UpdateView::Status(JobStatus::PendingWork)],
                    Seq::empty(),
                );
            }
        },
        (Phase::Test, EventView::Generated(r)) => {
            let code = joined_contents(extracted_files(r));
            let path = match run.test_path {
                Some(p) => p,
                None => Seq::empty(),
            };
            lemma_work_begun(
                plan,
                RunView { test_lines: Some(lines(code).len() as usize), ..run },
                seq![UpdateView::Status(JobStatus::PendingWork)],
                seq![(path, code)],
            );
        },
        (Phase::Targets, EventView::FilesRead(files)) => {
            lemma_split_asked(
                plan,
                RunView { targets: files, ..run },
                0,
                Seq::empty(),
                Seq::empty(),
            );
        },
        (Phase::Split(k), EventView::Generated(r)) => {
            let outputs = plan.outputs();
            let content = first_content(r);
            lemma_build_begun(plan, run, Seq::empty(), Seq::empty());
            if k < outputs.len() {
                lemma_split_asked(
                    plan,
                    RunView { generated: run.generated.push((outputs[k as int], content)), ..run },
                    following(k),
                    Seq::empty(),
                    seq![(outputs[k as int], content)],
                );
            }
        },
        (Phase::Sequential(k), EventView::Generated(r)) => {
            let outputs = plan.outputs();
            let content = first_content(r);
            lemma_build_begun(plan, run, Seq::empty(), Seq::empty());
            if k < outputs.len() {
                lemma_sequential_asked(
                    plan,
                    RunView { generated: run.generated.push((outputs[k as int], content)), ..run },
                    following(k),
                    Seq::empty(),
                    seq![(outputs[k as int], content)],
                );
            }
        },
        (Phase::Edit, EventView::Generated(r)) => {
            let edited = targets_edited_views(run.targets, parsed_edits(r));
            lemma_build_begun(
                plan,
                RunView { generated: edited.files, ..run },
                Seq::empty(),
                edited.files,
            );
        },
        (Phase::Replace, EventView::Generated(r)) => {
            let files = placed_files(extracted_files(r), plan.job.metadata.default_output());
            lemma_build_begun(plan, RunView { generated: files, ..run }, Seq::empty(), files);
        },
        (Phase::Build, EventView::Built { success, output }) => {
            lemma_verification_begun(plan, run, Seq::empty(), Seq::empty());
            lemma_fix_begun(plan, RunView { build_output: output, ..run }, 1);
        },
        (Phase::FixFiles(k), EventView::FilesRead(files)) => {
            lemma_fix_begun(plan, run, following(k));
        },
        (Phase::Fix(k), EventView::Generated(r)) => {
            lemma_fix_begun(plan, run, following(k));
        },
        (Phase::Fix(k), EventView::GenerationFailed(e)) => {
            lemma_fix_begun(plan, run, following(k));
        },
        (Phase::Rebuild(k), EventView::Built { success, output }) => {
            lemma_verification_begun(plan, run, Seq::empty(), Seq::empty());
            lemma_fix_begun(plan, RunView { build_output: output, ..run }, following(k));
        },
        (Phase::Verdict, EventView::Generated(r)) => {
            let v = verification_of(r);
            lemma_judged(plan, run, v.0, v.1);
        },
        (Phase::Retry, EventView::Generated(r)) => {},
        (Phase::SecondVerdict, EventView::Generated(r)) => {
            let v = verification_of(r);
            lemma_judged(plan, run, v.0, v.1);
        },
        _ => {},
    }
}

/// There is one retry at most: whatever is reported after the files were
/// generated again and a verdict on them was asked for, the run ends.
pub proof fn lemma_one_retry(plan: JobPlan, run: RunView, event: EventView)
    requires
        run.phase == Phase::SecondVerdict,
    ensures
        step_of(plan, run, event).run.phase == Phase::Done,
{
    lemma_finish_marks_ran(plan, run, event);
}

/// The fixes are numbered from 1 without gaps and tried no more often
/// than allowed: a step that begins a fix begins the first one after the
/// first build, and else the one after the fix before it; and the number
/// of a fix that begins is no greater than the number of fixes allowed.
pub proof fn lemma_fixes_bounded(plan: JobPlan, run: RunView, event: EventView, n: usize)
    requires
        step_of(plan, run, event).run.phase == Phase::FixFiles(n),
    ensures
        n <= plan.settings.auto_fix_attempts,
        run.phase == Phase::Build ==> n == 1,
        run.phase matches Phase::FixFiles(k) ==> n == following(k),
        run.phase matches Phase::Fix(k) ==> n == following(k),
        run.phase matches Phase::Rebuild(k) ==> n == following(k),
        run.phase == Phase::Build || run.phase is FixFiles || run.phase is Fix || run.phase
            is Rebuild,
{
    lemma_finish_marks_ran(plan, run, event);
    match (run.phase, event) {
        (Phase::Start, EventView::Begin) => {
            lemma_phase_of_work(
                plan,
                run,
                seq![UpdateView::Status(JobStatus::PendingWork)],
                Seq::empty(),
            );
        },
        (Phase::Test, EventView::Generated(r)) => {
            let code = joined_contents(extracted_files(r));
            let path = match run.test_path {
                Some(p) => p,
                None => Seq::empty(),
            };
            lemma_phase_of_work(
                plan,
                RunView { test_lines: Some(lines(code).len() as usize), ..run },
                seq![UpdateView::Status(JobStatus::PendingWork)],
                seq![(path, code)],
            );
        },
        (Phase::Targets, EventView::FilesRead(files)) => {
            lemma_phase_of_build(
                plan,
                RunView { targets: files, ..run },
                Seq::empty(),
                Seq::empty(),
            );
        },
        (Phase::Split(k), EventView::Generated(r)) => {
            let outputs = plan.outputs();
            let content = first_content(r);
            lemma_phase_of_build(plan, run, Seq::empty(), Seq::empty());
            if k < outputs.len() {
                lemma_phase_of_build(
                    plan,
                    RunView { generated: run.generated.push((outputs[k as int], content)), ..run },
                    Seq::empty(),
                    seq![(outputs[k as int], content)],
                );
            }
        },
        (Phase::Sequential(k), EventView::Generated(r)) => {
            let outputs = plan.outputs();
            let content = first_content(r);
            lemma_phase_of_build(plan, run, Seq::empty(), Seq::empty());
            if k < outputs.len() {
                lemma_phase_of_build(
                    plan,
                    RunView { generated: run.generated.push((outputs[k as int], content)), ..run },
                    Seq::empty(),
                    seq![(outputs[k as int], content)],
                );
            }
        },
        (Phase::Edit, EventView::Generated(r)) => {
            let edited = targets_edited_views(run.targets, parsed_edits(r));
            lemma_phase_of_build(
                plan,
                RunView { generated: edited.files, ..run },
                Seq::empty(),
                edited.files,
            );
        },
        (Phase::Replace, EventView::Generated(r)) => {
            let files = placed_files(extracted_files(r), plan.job.metadata.default_output());
            lemma_phase_of_build(plan, RunView { generated: files, ..run }, Seq::empty(), files);
        },
        _ => {},
    }
}

/// The step that begins the build waits for the build, for a verdict, or
/// for nothing.
proof fn lemma_phase_of_build(
    plan: JobPlan,
    run: RunView,
    updates: Seq<UpdateView>,
    writes: Seq<(Seq<char>, Seq<char>)>,
)
    ensures
        ({
            let p = build_begun(plan, run, updates, writes).run.phase;
            p == Phase::Build || p == Phase::Verdict || p == Phase::Done
        }),
        ({
            let p = sequential_asked(plan, run, 0, updates, writes).run.phase;
            p == Phase::Build || p == Phase::Verdict || p == Phase::Done || p is Sequential
        }),
        forall|k: usize|
            {
                let p = (#[trigger] sequential_asked(plan, run, k, updates, writes)).run.phase;
                p == Phase::Build || p == Phase::Verdict || p == Phase::Done || p is Sequential
            },
        forall|k: usize|
            {
                let p = (#[trigger] split_asked(plan, run, k, updates, writes)).run.phase;
                p == Phase::Build || p == Phase::Verdict || p == Phase::Done || p is Split
            },
{
}

/// The step that begins the work of a job's mode begins no fix.
proof fn lemma_phase_of_work(
    plan: JobPlan,
    run: RunView,
    updates: Seq<UpdateView>,
    writes: Seq<(Seq<char>, Seq<char>)>,
)
    ensures
        !(work_begun(plan, run, updates, writes).run.phase is FixFiles),
{
    lemma_phase_of_build(plan, run, updates, writes);
}

} // verus!
