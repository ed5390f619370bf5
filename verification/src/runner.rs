//! Running jobs: the outcome of a job, the summary of a run, and what
//! applying a set of edit instructions to the target files achieves.

use crate::error::WorkSplitError;
use crate::dependency::{sort_ids, sorted_ids};
use crate::job::same_file;
use crate::parser::edit::{
    apply_edit, edit_ref_views, edit_result, edit_views, find_fuzzy_match, fuzzy_start,
    fuzzy_start_byte, EditInstruction, EditView, ParsedEdits,
};
use crate::parser::extract::count_lines;
use crate::status::{FailedEdit, JobStatus, JobStatusEntry, PartialEditState, SuccessfulEdit};
use crate::store::{entry_refs, StatusManager};
use crate::text::{
    append, append_decimal, append_str, byte_len, chars_of, contains, contains_text, decimal,
    rows, same_text, vec_eq,
    lemma_strs_push, lines, pair_views, prefix, prefix_of, sort_strings, sorted_texts,
    string_of, strs,
};
use vstd::prelude::*;

verus! {

/// What came of running a job.
#[derive(Debug)]
pub struct JobResult {
    pub job_id: String,
    pub status: JobStatus,
    pub error: Option<String>,
    /// The files that were written.
    pub output_paths: Vec<String>,
    /// The number of lines generated, if it can be told.
    pub output_lines: Option<usize>,
    pub test_path: Option<String>,
    pub test_lines: Option<usize>,
    /// Whether the files were generated a second time after a failed
    /// verification.
    pub retry_attempted: bool,
    pub implicit_context_files: Vec<String>,
}

impl JobResult {
    /// The first of the files that were written.
    pub fn output_path(&self) -> (r: Option<&String>)
        ensures
            r is Some == (self.output_paths@.len() > 0),
            r matches Some(p) ==> *p == self.output_paths@[0],
    {
        if self.output_paths.len() > 0 {
            Some(&self.output_paths[0])
        } else {
            None
        }
    }

    /// The outcome of a job that failed with an error before it gave a
    /// result.
    pub fn failed(job_id: &str, message: String) -> (r: Self)
        ensures
            r.job_id@ == job_id@,
            r.status == JobStatus::Fail,
            r.error == Some(message),
            r.output_paths@.len() == 0,
            r.output_lines is None,
            r.test_path is None,
            r.test_lines is None,
            !r.retry_attempted,
            r.implicit_context_files@.len() == 0,
    {
        JobResult {
            job_id: job_id.to_owned(),
            status: JobStatus::Fail,
            error: Some(message),
            output_paths: Vec::new(),
            output_lines: None,
            test_path: None,
            test_lines: None,
            retry_attempted: false,
            implicit_context_files: Vec::new(),
        }
    }
}

/// What came of a run: how many jobs were processed, passed, failed and
/// left out, and the outcome of each job processed.
#[derive(Debug)]
pub struct RunSummary {
    pub processed: usize,
    pub passed: usize,
    pub failed: usize,
    pub skipped: usize,
    pub results: Vec<JobResult>,
}

impl RunSummary {
    /// Every job processed has its outcome, and none is counted twice.
    pub open spec fn wf(&self) -> bool {
        self.processed == self.results@.len() && self.passed + self.failed <= self.processed
    }

    /// The summary of a run in which nothing has been processed.
    pub fn new() -> (r: Self)
        ensures
            r.wf(),
            r.processed == 0 && r.passed == 0 && r.failed == 0 && r.skipped == 0,
            r.results@.len() == 0,
    {
        RunSummary { processed: 0, passed: 0, failed: 0, skipped: 0, results: Vec::new() }
    }

    /// Enters the outcome of a job, and tells whether the run stops: it
    /// does where the job failed and the run is to stop at a failure.
    pub fn record(&mut self, result: JobResult, stop_on_fail: bool) -> (stop: bool)
        requires
            old(self).wf(),
        ensures
            final(self).wf(),
            final(self).results@ == old(self).results@.push(result),
            final(self).processed == old(self).processed + 1,
            final(self).passed == old(self).passed + (if result.status == JobStatus::Pass {
                1int
            } else {
                0int
            }),
            final(self).failed == old(self).failed + (if result.status == JobStatus::Fail {
                1int
            } else {
                0int
            }),
            final(self).skipped == old(self).skipped,
            stop == (stop_on_fail && result.status == JobStatus::Fail),
    {
        let status = result.status;
        self.results.push(result);
        self.processed = self.results.len();
        match status {
            JobStatus::Pass => {
                self.passed += 1;
            },
            JobStatus::Fail => {
                self.failed += 1;
            },
            _ => {},
        }
        stop_on_fail && status == JobStatus::Fail
    }

    /// Enters a job that failed with an error before it gave a result, and
    /// tells whether the run stops.
    pub fn record_error(&mut self, job_id: &str, error: &WorkSplitError, stop_on_fail: bool) -> (stop:
        bool)
        requires
            old(self).wf(),
        ensures
            final(self).wf(),
            final(self).results@.len() == old(self).results@.len() + 1,
            final(self).results@.drop_last() == old(self).results@,
            final(self).results@.last().job_id@ == job_id@,
            final(self).results@.last().status == JobStatus::Fail,
            final(self).results@.last().error is Some,
            final(self).results@.last().error->0@ == error.text(),
            final(self).processed == old(self).processed + 1,
            final(self).passed == old(self).passed,
            final(self).failed == old(self).failed + 1,
            final(self).skipped == old(self).skipped,
            stop == stop_on_fail,
    {
        let result = JobResult::failed(job_id, error.message());
        self.record(result, stop_on_fail);
        assert(self.results@.drop_last() =~= old(self).results@);
        stop_on_fail
    }

    /// Closes a run that stopped early: the jobs that were to run and were
    /// not processed count as left out.
    pub fn close_stopped(&mut self, total_jobs: usize)
        requires
            old(self).wf(),
        ensures
            final(self).wf(),
            final(self).results == old(self).results,
            final(self).processed == old(self).processed,
            final(self).passed == old(self).passed,
            final(self).failed == old(self).failed,
            final(self).skipped == (if total_jobs >= old(self).processed {
                total_jobs - old(self).processed
            } else {
                0
            }),
    {
        self.skipped = if total_jobs >= self.processed {
            total_jobs - self.processed
        } else {
            0
        };
    }
}

/// The preview of a find text: its first 50 characters.
pub open spec fn preview(find_text: Seq<char>) -> Seq<char> {
    prefix(find_text, 50)
}

/// An applied edit as texts: the file and the preview.
pub struct DoneView {
    pub file_path: Seq<char>,
    pub find_preview: Seq<char>,
}

/// A failed edit as texts.
pub struct FailedView {
    pub file_path: Seq<char>,
    pub find_preview: Seq<char>,
    pub reason: Seq<char>,
    pub suggested_line: Option<usize>,
}

/// The views of applied edits.
pub open spec fn done_views(v: Seq<SuccessfulEdit>) -> Seq<DoneView> {
    Seq::new(
        v.len(),
        |i: int| DoneView { file_path: v[i].file_path@, find_preview: v[i].find_preview@ },
    )
}

/// The views of failed edits.
pub open spec fn failed_views(v: Seq<FailedEdit>) -> Seq<FailedView> {
    Seq::new(
        v.len(),
        |i: int|
            FailedView {
                file_path: v[i].file_path@,
                find_preview: v[i].find_preview@,
                reason: v[i].reason@,
                suggested_line: v[i].suggested_line,
            },
    )
}

/// What a file and the records are after a sequence of edits was tried on
/// it.
pub struct EditProgress {
    pub content: Seq<char>,
    pub done: Seq<DoneView>,
    pub failed: Seq<FailedView>,
}

/// The progress after one more edit: where the edit applies, the content
/// changes and the edit is recorded as applied; where it does not, the
/// content stays as it is and the edit is recorded as failed, with the
/// reason.
pub open spec fn edit_applied(p: EditProgress, e: EditView) -> EditProgress {
    match edit_result(p.content, e) {
        Ok(next) => EditProgress {
            content: next,
            done: p.done.push(DoneView { file_path: e.file_path, find_preview: preview(e.find) }),
            failed: p.failed,
        },
        Err(reason) => EditProgress {
            content: p.content,
            done: p.done,
            failed: p.failed.push(
                FailedView {
                    file_path: e.file_path,
                    find_preview: preview(e.find),
                    reason,
                    suggested_line: None,
                },
            ),
        },
    }
}

/// The progress after the edits were tried in order.
pub open spec fn edits_applied(p: EditProgress, es: Seq<EditView>) -> EditProgress
    decreases es.len(),
{
    if es.len() == 0 {
        p
    } else {
        edit_applied(edits_applied(p, es.drop_last()), es.last())
    }
}

/// Tries the edits on a file's content in order, each on what the edits
/// before it made of the content. An edit that does not apply leaves the
/// content as it is and is entered into `state` as failed; one that applies
/// is entered as applied. Returns the content after the last edit.
pub fn apply_file_edits(content: &str, edits: &[&EditInstruction], state: &mut PartialEditState) -> (r:
    String)
    ensures
        ({
            let start = EditProgress {
                content: content@,
                done: done_views(old(state).successful_edits@),
                failed: failed_views(old(state).failed_edits@),
            };
            let end = edits_applied(start, edit_ref_views(edits@));
            &&& r@ == end.content
            &&& done_views(final(state).successful_edits@) == end.done
            &&& failed_views(final(state).failed_edits@) == end.failed
        }),
{
    let ghost start = EditProgress {
        content: content@,
        done: done_views(state.successful_edits@),
        failed: failed_views(state.failed_edits@),
    };
    let mut current: String = content.to_owned();
    let mut i: usize = 0;
    assert(edit_ref_views(edits@).take(0) =~= Seq::<EditView>::empty());
    while i < edits.len()
        invariant
            i <= edits.len(),
            edits_applied(start, edit_ref_views(edits@).take(i as int)) == (EditProgress {
                content: current@,
                done: done_views(state.successful_edits@),
                failed: failed_views(state.failed_edits@),
            }),
        decreases edits.len() - i,
    {
        let ghost all = edit_ref_views(edits@);
        assert(all.take(i + 1).drop_last() == all.take(i as int));
        assert(all.take(i + 1).last() == (*edits@[i as int])@);
        let shown = string_of(&prefix_of(&chars_of(edits[i].find.as_str()), 50));
        let ghost done_before = state.successful_edits@;
        let ghost failed_before = state.failed_edits@;
        match apply_edit(current.as_str(), edits[i]) {
            Ok(next) => {
                current = next;
                state.successful_edits.push(
                    SuccessfulEdit { file_path: edits[i].file_path.clone(), find_preview: shown },
                );
                assert(done_views(state.successful_edits@) =~= done_views(done_before).push(
                    DoneView { file_path: edits@[i as int].file_path@, find_preview: shown@ },
                ));
            },
            Err(reason) => {
                state.failed_edits.push(
                    FailedEdit {
                        file_path: edits[i].file_path.clone(),
                        find_preview: shown,
                        reason,
                        suggested_line: None,
                    },
                );
                assert(failed_views(state.failed_edits@) =~= failed_views(failed_before).push(
                    FailedView {
                        file_path: edits@[i as int].file_path@,
                        find_preview: shown@,
                        reason: reason@,
                        suggested_line: None,
                    },
                ));
            },
        }
        i += 1;
    }
    assert(edit_ref_views(edits@).take(edits.len() as int) == edit_ref_views(edits@));
    current
}

/// An edit whose find text occurs in the content neither exactly nor
/// modulo white space leaves the content as it is, and is recorded as
/// failed, not passed over.
pub proof fn lemma_failed_edit_keeps_content(p: EditProgress, e: EditView)
    requires
        !contains(p.content, e.find),
        fuzzy_start(p.content, e.find) is None,
    ensures
        edit_applied(p, e).content == p.content,
        edit_applied(p, e).done == p.done,
        edit_applied(p, e).failed.len() == p.failed.len() + 1,
        edit_applied(p, e).failed.last().file_path == e.file_path,
{
}

/// Where every one of the edits fails, the content after them is the
/// content before them.
pub proof fn lemma_all_failed_keeps_content(p: EditProgress, es: Seq<EditView>)
    requires
        edits_applied(p, es).done == p.done,
    ensures
        edits_applied(p, es).content == p.content,
        edits_applied(p, es).failed.len() == p.failed.len() + es.len(),
    decreases es.len(),
{
    if es.len() > 0 {
        let before = edits_applied(p, es.drop_last());
        lemma_done_grows(p, es.drop_last());
        lemma_all_failed_keeps_content(p, es.drop_last());
    }
}

/// The record of applied edits only grows.
pub proof fn lemma_done_grows(p: EditProgress, es: Seq<EditView>)
    ensures
        edits_applied(p, es).done.len() >= p.done.len(),
        edits_applied(p, es).done.len() == p.done.len() ==> edits_applied(p, es).done == p.done,
        edits_applied(p, es).done.take(p.done.len() as int) == p.done,
    decreases es.len(),
{
    if es.len() > 0 {
        lemma_done_grows(p, es.drop_last());
        let before = edits_applied(p, es.drop_last());
        let after = edits_applied(p, es);
        assert(after.done.take(p.done.len() as int) =~= before.done.take(p.done.len() as int));
        if after.done.len() == p.done.len() {
            assert(after.done.take(p.done.len() as int) =~= after.done);
        }
    } else {
        assert(p.done.take(p.done.len() as int) =~= p.done);
    }
}

/// The hints at lines, one for each failed edit that has a suggested line:
/// the first 20 characters of its preview, the line and the file.
pub open spec fn line_hints(failed: Seq<FailedEdit>) -> Seq<Seq<char>>
    decreases failed.len(),
{
    if failed.len() == 0 {
        Seq::empty()
    } else {
        let before = line_hints(failed.drop_last());
        let e = failed.last();
        match e.suggested_line {
            Some(line) => before.push(
                "For '"@ + prefix(e.find_preview@, 20) + "...': check line "@ + decimal(line as nat)
                    + " in "@ + e.file_path@,
            ),
            None => before,
        }
    }
}

/// Some failed edit gives a reason that speaks of white space.
pub open spec fn blames_whitespace(failed: Seq<FailedEdit>) -> bool {
    exists|i: int| 0 <= i < failed.len() && contains((#[trigger] failed[i]).reason@, "whitespace"@)
}

/// What is suggested after failed edits: to check the white space, where a
/// reason speaks of it; to generate the files anew, where the job has more
/// than ten edits; and a hint at each suggested line.
pub open spec fn suggestions_for(failed: Seq<FailedEdit>, edit_count: usize) -> Seq<Seq<char>> {
    (if blames_whitespace(failed) {
        seq!["Check whitespace: file may use different indentation"@]
    } else {
        Seq::empty()
    }) + (if edit_count > 10 {
        seq![
            "Consider replace mode: this job has "@ + decimal(edit_count as nat)
                + "+ edits, replace is safer"@,
        ]
    } else {
        Seq::empty()
    }) + line_hints(failed)
}

fn any_blames_whitespace(failed: &[FailedEdit]) -> (r: bool)
    ensures
        r == blames_whitespace(failed@),
{
    let word = chars_of("whitespace");
    let mut i: usize = 0;
    while i < failed.len()
        invariant
            i <= failed.len(),
            word@ == "whitespace"@,
            forall|j: int| 0 <= j < i ==> !contains((#[trigger] failed@[j]).reason@, "whitespace"@),
        decreases failed.len() - i,
    {
        if contains_text(&chars_of(failed[i].reason.as_str()), &word) {
            return true;
        }
        i += 1;
    }
    false
}

/// Makes suggestions from the edits that failed and the number of edits of
/// the job.
pub fn generate_suggestions(failed_edits: &[FailedEdit], edit_count: usize) -> (r: Vec<String>)
    ensures
        strs(r@) == suggestions_for(failed_edits@, edit_count),
{
    let mut r: Vec<String> = Vec::new();
    if any_blames_whitespace(failed_edits) {
        r.push("Check whitespace: file may use different indentation".to_owned());
    }
    if edit_count > 10 {
        let mut text: Vec<char> = Vec::new();
        append_str(&mut text, "Consider replace mode: this job has ");
        append_decimal(&mut text, edit_count);
        append_str(&mut text, "+ edits, replace is safer");
        assert(text@ =~= "Consider replace mode: this job has "@ + decimal(edit_count as nat)
            + "+ edits, replace is safer"@);
        r.push(string_of(&text));
    }
    let ghost head = strs(r@);
    assert(head + line_hints(failed_edits@) =~= suggestions_for(failed_edits@, edit_count));
    let mut i: usize = 0;
    assert(head + line_hints(failed_edits@.take(0)) =~= head);
    while i < failed_edits.len()
        invariant
            i <= failed_edits.len(),
            strs(r@) == head + line_hints(failed_edits@.take(i as int)),
        decreases failed_edits.len() - i,
    {
        assert(failed_edits@.take(i + 1).drop_last() == failed_edits@.take(i as int));
        assert(failed_edits@.take(i + 1).last() == failed_edits@[i as int]);
        if let Some(line) = failed_edits[i].suggested_line {
            let mut text: Vec<char> = Vec::new();
            append_str(&mut text, "For '");
            append(&mut text, &prefix_of(&chars_of(failed_edits[i].find_preview.as_str()), 20));
            append_str(&mut text, "...': check line ");
            append_decimal(&mut text, line);
            append_str(&mut text, " in ");
            append_str(&mut text, failed_edits[i].file_path.as_str());
            let ghost e = failed_edits@[i as int];
            assert(text@ =~= "For '"@ + prefix(e.find_preview@, 20) + "...': check line "@
                + decimal(line as nat) + " in "@ + e.file_path@);
            let hint = string_of(&text);
            proof {
                lemma_strs_push(r@, hint);
            }
            r.push(hint);
        }
        i += 1;
        assert(strs(r@) =~= head + line_hints(failed_edits@.take(i as int)));
    }
    assert(failed_edits@.take(failed_edits.len() as int) == failed_edits@);
    r
}

/// What an edit job achieved: the files that changed, with their new
/// content; their paths; the number of their lines, if it can be told;
/// the record of the edits, where some failed; and suggestions.
#[derive(Debug)]
pub struct EditModeResult {
    pub generated_files: Vec<(String, String)>,
    pub output_paths: Vec<String>,
    pub total_lines: Option<usize>,
    pub partial_state: Option<PartialEditState>,
    pub suggestions: Vec<String>,
}

/// What the target files and the records are after the edits were tried.
pub struct EditRun {
    /// The files on which an edit applied, with their new content.
    pub files: Seq<(Seq<char>, Seq<char>)>,
    pub done: Seq<DoneView>,
    pub failed: Seq<FailedView>,
}

/// The edits tried on the target files, file by file: on each file the
/// edits that name it, in order. A file on which none applies is not among
/// the files that changed.
pub open spec fn targets_edited(targets: Seq<(String, String)>, edits: Seq<EditView>) -> EditRun
    decreases targets.len(),
{
    if targets.len() == 0 {
        EditRun { files: Seq::empty(), done: Seq::empty(), failed: Seq::empty() }
    } else {
        let before = targets_edited(targets.drop_last(), edits);
        let path = targets.last().0@;
        let p = edits_applied(
            EditProgress { content: targets.last().1@, done: before.done, failed: before.failed },
            edits.filter(|e: EditView| same_file(e.file_path, path)),
        );
        EditRun {
            files: if p.done.len() > before.done.len() {
                before.files.push((path, p.content))
            } else {
                before.files
            },
            done: p.done,
            failed: p.failed,
        }
    }
}

/// The number of lines of the files together.
pub open spec fn total_lines(files: Seq<(Seq<char>, Seq<char>)>) -> nat
    decreases files.len(),
{
    if files.len() == 0 {
        0
    } else {
        total_lines(files.drop_last()) + lines(files.last().1).len()
    }
}

/// The number of lines of the files together, where it fits the machine's
/// numbers.
pub open spec fn told_lines(files: Seq<(Seq<char>, Seq<char>)>) -> Option<usize> {
    if total_lines(files) <= usize::MAX {
        Some(total_lines(files) as usize)
    } else {
        None
    }
}

/// Counts the lines of the files together.
pub fn count_total_lines(files: &[(String, String)]) -> (r: Option<usize>)
    ensures
        r == told_lines(pair_views(files@)),
{
    let ghost all = pair_views(files@);
    let mut total: usize = 0;
    let mut i: usize = 0;
    assert(all.take(0) =~= Seq::<(Seq<char>, Seq<char>)>::empty());
    while i < files.len()
        invariant
            i <= files.len(),
            all == pair_views(files@),
            total == total_lines(all.take(i as int)),
        decreases files.len() - i,
    {
        assert(all.take(i + 1).drop_last() == all.take(i as int));
        assert(all.take(i + 1).last() == (files@[i as int].0@, files@[i as int].1@));
        let n = count_lines(files[i].1.as_str());
        if n > usize::MAX - total {
            proof {
                lemma_total_lines_grows(all, i + 1);
            }
            return None;
        }
        total = total + n;
        i += 1;
    }
    assert(all.take(files.len() as int) == all);
    Some(total)
}

/// The lines of more files are not fewer.
pub proof fn lemma_total_lines_grows(files: Seq<(Seq<char>, Seq<char>)>, k: int)
    requires
        0 <= k <= files.len(),
    ensures
        total_lines(files.take(k)) <= total_lines(files),
    decreases files.len() - k,
{
    if k < files.len() {
        assert(files.take(k + 1).drop_last() == files.take(k));
        lemma_total_lines_grows(files, k + 1);
    } else {
        assert(files.take(k) == files);
    }
}

/// Tries the edits of an answer on the target files, given with their
/// content. Fails where no file changed; the error says that the edits
/// produced nothing. Else tells which files changed and how; where an edit
/// failed, the record of the applied and the failed edits comes with it.
/// A failed edit changes nothing; it is recorded, and the rest goes on.
pub fn process_edits(targets: &[(String, String)], parsed: &ParsedEdits) -> (r: Result<
    EditModeResult,
    WorkSplitError,
>)
    ensures
        ({
            let run = targets_edited(targets@, edit_views(parsed.edits@));
            match r {
                Ok(res) => {
                    &&& run.files.len() > 0
                    &&& pair_views(res.generated_files@) == run.files
                    &&& strs(res.output_paths@) == Seq::new(run.files.len(), |i: int| run.files[i].0)
                    &&& res.total_lines == told_lines(run.files)
                    &&& res.partial_state is Some == (run.failed.len() > 0)
                    &&& res.partial_state matches Some(state) ==> done_views(
                        state.successful_edits@,
                    ) == run.done && failed_views(state.failed_edits@) == run.failed
                    &&& res.partial_state matches Some(state) ==> strs(res.suggestions@)
                        == suggestions_for(state.failed_edits@, parsed.edits@.len() as usize)
                    &&& res.partial_state is None ==> strs(res.suggestions@) == suggestions_for(
                        Seq::empty(),
                        parsed.edits@.len() as usize,
                    )
                },
                Err(e) => {
                    &&& run.files.len() == 0
                    &&& e matches WorkSplitError::EditFailed(m) && m@
                        == "Edit mode produced no edits"@
                },
            }
        }),
{
    let ghost all_edits = edit_views(parsed.edits@);
    let mut state = PartialEditState::new();
    let mut generated: Vec<(String, String)> = Vec::new();
    let mut paths: Vec<String> = Vec::new();
    let mut i: usize = 0;
    assert(done_views(state.successful_edits@) =~= Seq::<DoneView>::empty());
    assert(failed_views(state.failed_edits@) =~= Seq::<FailedView>::empty());
    assert(pair_views(generated@) =~= Seq::<(Seq<char>, Seq<char>)>::empty());
    assert(targets@.take(0) =~= Seq::<(String, String)>::empty());
    assert(strs(paths@) =~= Seq::new(0, |k: int| pair_views(generated@)[k].0));
    while i < targets.len()
        invariant
            i <= targets.len(),
            all_edits == edit_views(parsed.edits@),
            targets_edited(targets@.take(i as int), all_edits) == (EditRun {
                files: pair_views(generated@),
                done: done_views(state.successful_edits@),
                failed: failed_views(state.failed_edits@),
            }),
            strs(paths@) == Seq::new(generated@.len(), |k: int| pair_views(generated@)[k].0),
        decreases targets.len() - i,
    {
        assert(targets@.take(i + 1).drop_last() == targets@.take(i as int));
        assert(targets@.take(i + 1).last() == targets@[i as int]);
        let refs = parsed.edits_for_file(&targets[i].0);
        let done_before = state.successful_edits.len();
        let content = apply_file_edits(targets[i].1.as_str(), refs.as_slice(), &mut state);
        if state.successful_edits.len() > done_before {
            let path = targets[i].0.clone();
            let ghost files_before = pair_views(generated@);
            proof {
                lemma_strs_push(paths@, path);
            }
            paths.push(path.clone());
            generated.push((path, content));
            assert(pair_views(generated@) =~= files_before.push((targets@[i as int].0@, content@)));
            assert(strs(paths@) =~= Seq::new(
                generated@.len(),
                |k: int| pair_views(generated@)[k].0,
            ));
        }
        i += 1;
    }
    assert(targets@.take(targets.len() as int) == targets@);
    if generated.len() == 0 {
        return Err(WorkSplitError::EditFailed("Edit mode produced no edits".to_owned()));
    }
    let total = count_total_lines(generated.as_slice());
    if state.failed_edits.len() == 0 {
        let none: Vec<FailedEdit> = Vec::new();
        let suggestions = generate_suggestions(none.as_slice(), parsed.edits.len());
        assert(none@ =~= Seq::<FailedEdit>::empty());
        Ok(
            EditModeResult {
                generated_files: generated,
                output_paths: paths,
                total_lines: total,
                partial_state: None,
                suggestions,
            },
        )
    } else {
        let suggestions = generate_suggestions(state.failed_edits.as_slice(), parsed.edits.len());
        Ok(
            EditModeResult {
                generated_files: generated,
                output_paths: paths,
                total_lines: total,
                partial_state: Some(state),
                suggestions,
            },
        )
    }
}

/// The identifiers of the records.
pub open spec fn ids_of(es: Seq<JobStatusEntry>) -> Seq<Seq<char>> {
    Seq::new(es.len(), |i: int| es[i].id@)
}

/// The jobs that a run takes up, in ascending order: those that wait and
/// have not run; with `include_ran`, those that wait, run or not; with
/// `resume_stuck`, also those left in an intermediate state.
pub open spec fn jobs_taken(es: Seq<JobStatusEntry>, resume_stuck: bool, include_ran: bool) -> Seq<
    Seq<char>,
> {
    sorted_texts(
        ids_of(
            if include_ran {
                es.filter(|e: JobStatusEntry| e.status.ready())
            } else {
                es.filter(|e: JobStatusEntry| e.status.ready() && !e.ran)
            },
        ) + (if resume_stuck {
            ids_of(es.filter(|e: JobStatusEntry| e.status.stuck()))
        } else {
            Seq::empty()
        }),
    )
}

fn push_ids(out: &mut Vec<String>, entries: &Vec<&JobStatusEntry>)
    ensures
        strs(final(out)@) == strs(old(out)@) + ids_of(entry_refs(entries@)),
{
    let ghost head = strs(out@);
    let ghost all = ids_of(entry_refs(entries@));
    let mut i: usize = 0;
    assert(strs(out@) =~= head + all.take(0));
    while i < entries.len()
        invariant
            i <= entries.len(),
            all == ids_of(entry_refs(entries@)),
            strs(out@) == head + all.take(i as int),
        decreases entries.len() - i,
    {
        let id = entries[i].id.clone();
        proof {
            lemma_strs_push(out@, id);
            assert(strs(out@).push(id@) =~= head + all.take(i + 1));
        }
        out.push(id);
        i += 1;
    }
    assert(all.take(entries.len() as int) =~= all);
}

/// Picks the jobs that a run takes up.
pub fn jobs_to_run(store: &StatusManager, resume_stuck: bool, include_ran: bool) -> (r: Vec<String>)
    ensures
        strs(r@) == jobs_taken(store.entries(), resume_stuck, include_ran),
{
    let mut picked: Vec<String> = Vec::new();
    let ghost start = strs(picked@);
    assert(start =~= Seq::<Seq<char>>::empty());
    if include_ran {
        push_ids(&mut picked, &store.get_ready_jobs_include_ran());
    } else {
        push_ids(&mut picked, &store.get_ready_jobs());
    }
    let ghost first = strs(picked@);
    if resume_stuck {
        push_ids(&mut picked, &store.get_stuck_jobs());
    } else {
        assert(first + Seq::<Seq<char>>::empty() =~= first);
    }
    assert(first =~= ids_of(
        if include_ran {
            store.entries().filter(|e: JobStatusEntry| e.status.ready())
        } else {
            store.entries().filter(|e: JobStatusEntry| e.status.ready() && !e.ran)
        },
    ));
    sort_strings(picked.as_slice())
}

/// What the edits of an answer would do, told without doing it.
#[derive(Debug, Clone)]
pub struct DryRunResult {
    pub job_id: String,
    pub planned_edits: Vec<PlannedEdit>,
    pub warnings: Vec<String>,
}

/// An edit and what would come of it.
#[derive(Debug, Clone)]
pub struct PlannedEdit {
    pub file_path: String,
    /// Where the find text matches modulo white space, roughly.
    pub line_number: Option<usize>,
    pub find_preview: String,
    pub replace_preview: String,
    pub status: PlannedEditStatus,
}

/// What would come of an edit.
#[derive(Debug, Clone, Copy, PartialEq, Eq, Structural)]
pub enum PlannedEditStatus {
    /// The find text occurs.
    WillApply,
    /// The find text matches modulo white space.
    WillApplyFuzzy,
    /// The find text is not found.
    WillFail,
}

/// A planned edit as texts.
pub struct PlanView {
    pub file_path: Seq<char>,
    pub line_number: Option<usize>,
    pub find_preview: Seq<char>,
    pub replace_preview: Seq<char>,
    pub status: PlannedEditStatus,
}

impl View for PlannedEdit {
    type V = PlanView;

    open spec fn view(&self) -> PlanView {
        PlanView {
            file_path: self.file_path@,
            line_number: self.line_number,
            find_preview: self.find_preview@,
            replace_preview: self.replace_preview@,
            status: self.status,
        }
    }
}

/// The views of a sequence of planned edits.
pub open spec fn plan_views(v: Seq<PlannedEdit>) -> Seq<PlanView> {
    Seq::new(v.len(), |i: int| v[i]@)
}

/// The content of the file at `path` among the files read; empty where it
/// is not among them.
pub open spec fn content_at(files: Seq<(Seq<char>, Seq<char>)>, path: Seq<char>) -> Seq<char>
    decreases files.len(),
{
    if files.len() == 0 {
        Seq::empty()
    } else if files[0].0 == path {
        files[0].1
    } else {
        content_at(files.drop_first(), path)
    }
}

/// What is planned for an edit of a file with the given content: nothing
/// where the find text is not found. A find text that matches modulo white
/// space only comes with the byte at which the match starts.
pub open spec fn planned(e: EditView, content: Seq<char>) -> Option<PlanView> {
    if contains(content, e.find) {
        Some(
            PlanView {
                file_path: e.file_path,
                line_number: None,
                find_preview: preview(e.find),
                replace_preview: preview(e.replace),
                status: PlannedEditStatus::WillApply,
            },
        )
    } else if fuzzy_start(content, e.find) is Some {
        Some(
            PlanView {
                file_path: e.file_path,
                line_number: Some(fuzzy_start_byte(content, e.find) as usize),
                find_preview: preview(e.find),
                replace_preview: preview(e.replace),
                status: PlannedEditStatus::WillApplyFuzzy,
            },
        )
    } else {
        None
    }
}

/// The warning that a find text matches modulo white space only.
pub open spec fn fuzzy_warning(p: PlanView) -> Seq<char> {
    "Fuzzy match for "@ + p.file_path + " at approximate position "@ + decimal(
        p.line_number->0 as nat,
    )
}

/// The plans for the edits, in order.
pub open spec fn plans(edits: Seq<EditView>, files: Seq<(Seq<char>, Seq<char>)>) -> Seq<PlanView>
    decreases edits.len(),
{
    if edits.len() == 0 {
        Seq::empty()
    } else {
        let before = plans(edits.drop_last(), files);
        match planned(edits.last(), content_at(files, edits.last().file_path)) {
            Some(p) => before.push(p),
            None => before,
        }
    }
}

/// The warnings for the plans, in order: one for each find text that
/// matches modulo white space only.
pub open spec fn plan_warnings(ps: Seq<PlanView>) -> Seq<Seq<char>>
    decreases ps.len(),
{
    if ps.len() == 0 {
        Seq::empty()
    } else if ps.last().status == PlannedEditStatus::WillApplyFuzzy && ps.last().line_number
        is Some {
        plan_warnings(ps.drop_last()).push(fuzzy_warning(ps.last()))
    } else {
        plan_warnings(ps.drop_last())
    }
}

/// Every file read takes fewer bytes than the machine can count.
pub open spec fn countable(files: Seq<(String, String)>) -> bool {
    forall|i: int| 0 <= i < files.len() ==> byte_len((#[trigger] files[i]).1@) < usize::MAX
}

fn find_content<'a>(files: &'a [(String, String)], path: &str) -> (r: Option<&'a String>)
    ensures
        match r {
            Some(c) => c@ == content_at(pair_views(files@), path@) && exists|i: int|
                0 <= i < files@.len() && files@[i].1 == *c,
            None => content_at(pair_views(files@), path@) == Seq::<char>::empty(),
        },
{
    let ghost all = pair_views(files@);
    let mut i: usize = 0;
    assert(all.skip(0) =~= all);
    while i < files.len()
        invariant
            i <= files.len(),
            all == pair_views(files@),
            content_at(all, path@) == content_at(all.skip(i as int), path@),
        decreases files.len() - i,
    {
        assert(all.skip(i as int).drop_first() =~= all.skip(i + 1));
        assert(all.skip(i as int)[0] == (files@[i as int].0@, files@[i as int].1@));
        if same_text(files[i].0.as_str(), path) {
            return Some(&files[i].1);
        }
        i += 1;
    }
    None
}

/// Tells what the edits of an answer would do to the files, given with
/// their content, without doing it.
pub fn plan_edits(job_id: &str, parsed: &ParsedEdits, files: &[(String, String)]) -> (r:
    DryRunResult)
    requires
        countable(files@),
    ensures
        r.job_id@ == job_id@,
        plan_views(r.planned_edits@) == plans(edit_views(parsed.edits@), pair_views(files@)),
        strs(r.warnings@) == plan_warnings(plan_views(r.planned_edits@)),
{
    let ghost all = edit_views(parsed.edits@);
    let ghost texts = pair_views(files@);
    let mut planned_edits: Vec<PlannedEdit> = Vec::new();
    let mut warnings: Vec<String> = Vec::new();
    let mut i: usize = 0;
    assert(plan_views(planned_edits@) =~= plans(all.take(0), texts));
    assert(strs(warnings@) =~= plan_warnings(plan_views(planned_edits@)));
    while i < parsed.edits.len()
        invariant
            i <= parsed.edits.len(),
            all == edit_views(parsed.edits@),
            texts == pair_views(files@),
            countable(files@),
            plan_views(planned_edits@) == plans(all.take(i as int), texts),
            strs(warnings@) == plan_warnings(plan_views(planned_edits@)),
        decreases parsed.edits.len() - i,
    {
        assert(all.take(i + 1).drop_last() =~= all.take(i as int));
        assert(all.take(i + 1).last() == parsed.edits@[i as int]@);
        let edit = &parsed.edits[i];
        let empty = String::new();
        let content: &String = match find_content(files, edit.file_path.as_str()) {
            Some(c) => c,
            None => &empty,
        };
        let find_text = chars_of(edit.find.as_str());
        let find_preview = string_of(&prefix_of(&find_text, 50));
        let replace_preview = string_of(&prefix_of(&chars_of(edit.replace.as_str()), 50));
        let ghost before = plan_views(planned_edits@);
        if contains_text(&chars_of(content.as_str()), &find_text) {
            let p = PlannedEdit {
                file_path: edit.file_path.clone(),
                line_number: None,
                find_preview,
                replace_preview,
                status: PlannedEditStatus::WillApply,
            };
            planned_edits.push(p);
            assert(plan_views(planned_edits@) =~= before.push(p@));
            assert(plan_views(planned_edits@).drop_last() =~= before);
        } else {
            proof {
                lemma_byte_len_empty();
            }
            if let Some((start, _end, _matched)) = find_fuzzy_match(
                content.as_str(),
                edit.find.as_str(),
            ) {
                let p = PlannedEdit {
                    file_path: edit.file_path.clone(),
                    line_number: Some(start),
                    find_preview,
                    replace_preview,
                    status: PlannedEditStatus::WillApplyFuzzy,
                };
                let mut text: Vec<char> = Vec::new();
                append_str(&mut text, "Fuzzy match for ");
                append_str(&mut text, edit.file_path.as_str());
                append_str(&mut text, " at approximate position ");
                append_decimal(&mut text, start);
                assert(text@ =~= fuzzy_warning(p@));
                let warning = string_of(&text);
                proof {
                    lemma_strs_push(warnings@, warning);
                }
                warnings.push(warning);
                planned_edits.push(p);
                assert(plan_views(planned_edits@) =~= before.push(p@));
                assert(plan_views(planned_edits@).drop_last() =~= before);
            }
        }
        i += 1;
    }
    assert(all.take(parsed.edits.len() as int) =~= all);
    DryRunResult { job_id: job_id.to_owned(), planned_edits, warnings }
}

/// The empty text takes no bytes.
pub proof fn lemma_byte_len_empty()
    ensures
        byte_len(Seq::<char>::empty()) == 0,
{
}

/// The mark of what would come of an edit.
pub open spec fn status_mark(status: PlannedEditStatus) -> Seq<char> {
    match status {
        PlannedEditStatus::WillApply => "\u{2713}"@,
        PlannedEditStatus::WillApplyFuzzy => "~"@,
        PlannedEditStatus::WillFail => "\u{2717}"@,
    }
}

/// The line of a planned edit: its mark, its preview, and where it
/// matches, if that is told.
pub open spec fn plan_line(p: PlanView) -> Seq<char> {
    "    "@ + status_mark(p.status) + " "@ + p.find_preview + (match p.line_number {
        Some(n) => " (line "@ + decimal(n as nat) + ")"@,
        None => Seq::empty(),
    }) + "...\n"@
}

/// The lines of the planned edits of the file at `path`, in order.
pub open spec fn file_lines(ps: Seq<PlanView>, path: Seq<char>) -> Seq<char>
    decreases ps.len(),
{
    if ps.len() == 0 {
        Seq::empty()
    } else if ps.last().file_path == path {
        file_lines(ps.drop_last(), path) + plan_line(ps.last())
    } else {
        file_lines(ps.drop_last(), path)
    }
}

/// The planned edits file by file, each file under its heading.
pub open spec fn files_shown(ps: Seq<PlanView>, paths: Seq<Seq<char>>) -> Seq<char>
    decreases paths.len(),
{
    if paths.len() == 0 {
        Seq::empty()
    } else {
        files_shown(ps, paths.drop_last()) + "\n  File: "@ + paths.last() + "\n"@ + file_lines(
            ps,
            paths.last(),
        )
    }
}

/// The warnings as a list under its heading; nothing where there are
/// none.
pub open spec fn warnings_shown(ws: Seq<Seq<char>>) -> Seq<char> {
    if ws.len() == 0 {
        Seq::empty()
    } else {
        "\nWarnings:\n"@ + warning_items(ws)
    }
}

/// The warnings as items of a list.
pub open spec fn warning_items(ws: Seq<Seq<char>>) -> Seq<char>
    decreases ws.len(),
{
    if ws.len() == 0 {
        Seq::empty()
    } else {
        warning_items(ws.drop_last()) + "  - "@ + ws.last() + "\n"@
    }
}

/// The paths of the planned edits.
pub open spec fn plan_paths(ps: Seq<PlanView>) -> Seq<Seq<char>> {
    Seq::new(ps.len(), |i: int| ps[i].file_path)
}

impl DryRunResult {
    /// The plan as it is shown: the job, the number of planned edits, the
    /// edits file by file, the files in ascending order of their paths, and
    /// the warnings.
    pub open spec fn shown(&self) -> Seq<char> {
        let ps = plan_views(self.planned_edits@);
        "[DRY RUN] Job: "@ + self.job_id@ + "\n"@ + "Planned edits: "@ + decimal(ps.len()) + "\n"@
            + files_shown(ps, sorted_ids(plan_paths(ps))) + warnings_shown(strs(self.warnings@))
    }

    /// Writes the plan as it is shown.
    pub fn render(&self) -> (r: String)
        ensures
            r@ == self.shown(),
    {
        let ghost ps = plan_views(self.planned_edits@);
        let mut out: Vec<char> = Vec::new();
        append_str(&mut out, "[DRY RUN] Job: ");
        append_str(&mut out, self.job_id.as_str());
        append_str(&mut out, "\n");
        append_str(&mut out, "Planned edits: ");
        append_decimal(&mut out, self.planned_edits.len());
        append_str(&mut out, "\n");
        let mut names: Vec<String> = Vec::new();
        let mut n: usize = 0;
        assert(strs(names@) =~= plan_paths(ps).take(0));
        while n < self.planned_edits.len()
            invariant
                n <= self.planned_edits.len(),
                ps == plan_views(self.planned_edits@),
                strs(names@) == plan_paths(ps).take(n as int),
            decreases self.planned_edits.len() - n,
        {
            let name = self.planned_edits[n].file_path.clone();
            proof {
                lemma_strs_push(names@, name);
                assert(strs(names@).push(name@) =~= plan_paths(ps).take(n + 1));
            }
            names.push(name);
            n += 1;
        }
        assert(plan_paths(ps).take(self.planned_edits.len() as int) =~= plan_paths(ps));
        let paths = sort_ids(names.as_slice());
        let ghost head = out@;
        let mut f: usize = 0;
        assert(out@ =~= head + files_shown(ps, rows(paths@).take(0)));
        while f < paths.len()
            invariant
                f <= paths.len(),
                ps == plan_views(self.planned_edits@),
                out@ == head + files_shown(ps, rows(paths@).take(f as int)),
            decreases paths.len() - f,
        {
            assert(rows(paths@).take(f + 1).drop_last() == rows(paths@).take(f as int));
            assert(rows(paths@).take(f + 1).last() == paths@[f as int]@);
            append_str(&mut out, "\n  File: ");
            append(&mut out, &paths[f]);
            append_str(&mut out, "\n");
            let ghost start = out@;
            let mut k: usize = 0;
            assert(out@ =~= start + file_lines(ps.take(0), paths@[f as int]@));
            while k < self.planned_edits.len()
                invariant
                    k <= self.planned_edits.len(),
                    f < paths.len(),
                    ps == plan_views(self.planned_edits@),
                    out@ == start + file_lines(ps.take(k as int), paths@[f as int]@),
                decreases self.planned_edits.len() - k,
            {
                assert(ps.take(k + 1).drop_last() == ps.take(k as int));
                assert(ps.take(k + 1).last() == self.planned_edits@[k as int]@);
                let p = &self.planned_edits[k];
                if vec_eq(&chars_of(p.file_path.as_str()), &paths[f]) {
                    let ghost before = out@;
                    append_str(&mut out, "    ");
                    match p.status {
                        PlannedEditStatus::WillApply => append_str(&mut out, "\u{2713}"),
                        PlannedEditStatus::WillApplyFuzzy => append_str(&mut out, "~"),
                        PlannedEditStatus::WillFail => append_str(&mut out, "\u{2717}"),
                    }
                    append_str(&mut out, " ");
                    append_str(&mut out, p.find_preview.as_str());
                    if let Some(line) = p.line_number {
                        append_str(&mut out, " (line ");
                        append_decimal(&mut out, line);
                        append_str(&mut out, ")");
                    }
                    append_str(&mut out, "...\n");
                    assert(out@ =~= before + plan_line(p@));
                }
                k += 1;
                assert(out@ =~= start + file_lines(ps.take(k as int), paths@[f as int]@));
            }
            assert(ps.take(self.planned_edits.len() as int) == ps);
            f += 1;
            assert(out@ =~= head + files_shown(ps, rows(paths@).take(f as int)));
        }
        assert(rows(paths@).take(paths.len() as int) == rows(paths@));
        let ghost body = out@;
        if self.warnings.len() > 0 {
            append_str(&mut out, "\nWarnings:\n");
            let ghost listed = out@;
            let mut w: usize = 0;
            assert(out@ =~= listed + warning_items(strs(self.warnings@).take(0)));
            while w < self.warnings.len()
                invariant
                    w <= self.warnings.len(),
                    out@ == listed + warning_items(strs(self.warnings@).take(w as int)),
                decreases self.warnings.len() - w,
            {
                assert(strs(self.warnings@).take(w + 1).drop_last() == strs(self.warnings@).take(
                    w as int,
                ));
                assert(strs(self.warnings@).take(w + 1).last() == self.warnings@[w as int]@);
                append_str(&mut out, "  - ");
                append_str(&mut out, self.warnings[w].as_str());
                append_str(&mut out, "\n");
                w += 1;
                assert(out@ =~= listed + warning_items(strs(self.warnings@).take(w as int)));
            }
            assert(strs(self.warnings@).take(self.warnings.len() as int) == strs(self.warnings@));
        }
        assert(out@ =~= body + warnings_shown(strs(self.warnings@)));
        assert(out@ =~= self.shown());
        string_of(&out)
    }
}

/// The outcome of a job in one line: the job, `PASS` or `FAIL` or three
/// question marks for any other status, the number of lines where it is
/// told, and the error where there is one.
pub open spec fn outcome_line(
    job_id: Seq<char>,
    status: JobStatus,
    error: Option<Seq<char>>,
    output_lines: Option<usize>,
) -> Seq<char> {
    "  "@ + job_id + " ["@ + (match status {
        JobStatus::Pass => "PASS"@,
        JobStatus::Fail => "FAIL"@,
        _ => "???"@,
    }) + "]"@ + (match output_lines {
        Some(n) => " ("@ + decimal(n as nat) + " lines)"@,
        None => Seq::empty(),
    }) + (match error {
        Some(e) => ": "@ + e,
        None => Seq::empty(),
    })
}

impl JobResult {
    /// The outcome in one line.
    pub fn line(&self) -> (r: String)
        ensures
            r@ == outcome_line(
                self.job_id@,
                self.status,
                match self.error {
                    Some(e) => Some(e@),
                    None => None,
                },
                self.output_lines,
            ),
    {
        let mut out: Vec<char> = Vec::new();
        append_str(&mut out, "  ");
        append_str(&mut out, self.job_id.as_str());
        append_str(&mut out, " [");
        match self.status {
            JobStatus::Pass => append_str(&mut out, "PASS"),
            JobStatus::Fail => append_str(&mut out, "FAIL"),
            _ => append_str(&mut out, "???"),
        }
        append_str(&mut out, "]");
        if let Some(n) = self.output_lines {
            append_str(&mut out, " (");
            append_decimal(&mut out, n);
            append_str(&mut out, " lines)");
        }
        if let Some(e) = &self.error {
            append_str(&mut out, ": ");
            append_str(&mut out, e.as_str());
        }
        assert(out@ =~= outcome_line(
            self.job_id@,
            self.status,
            match self.error {
                Some(e) => Some(e@),
                None => None,
            },
            self.output_lines,
        ));
        string_of(&out)
    }
}

} // verus!
