//! The status store: one record for each known job, and the state machine
//! over them.

use crate::engine::StatusUpdate;
use crate::error::StatusError;
use crate::seqs::{lemma_filter_all, lemma_filter_members};
use crate::status::{
    copy_failed_edits, current_time, FailedEdit, JobStatus, JobStatusEntry, PartialEditState,
    Timestamp,
};
use crate::text::{
    append_decimal, append_str, chars_of, decimal, is_lex_less, lex_less, same_text, string_of,
    strs,
};
use vstd::prelude::*;

verus! {

/// No two records are of the same job.
pub open spec fn ids_distinct(es: Seq<JobStatusEntry>) -> bool {
    forall|i: int, j: int| 0 <= i < j < es.len() ==> es[i].id@ != es[j].id@
}

/// The position of the first record of the job `id`; the number of records
/// where there is none.
pub open spec fn position(es: Seq<JobStatusEntry>, id: Seq<char>) -> int
    decreases es.len(),
{
    if es.len() == 0 || es[0].id@ == id {
        0
    } else {
        1 + position(es.drop_first(), id)
    }
}

/// A record of the job `id` is kept.
pub open spec fn known(es: Seq<JobStatusEntry>, id: Seq<char>) -> bool {
    position(es, id) < es.len()
}

pub proof fn lemma_position(es: Seq<JobStatusEntry>, id: Seq<char>)
    ensures
        0 <= position(es, id) <= es.len(),
        forall|k: int| 0 <= k < position(es, id) ==> es[k].id@ != id,
        known(es, id) ==> es[position(es, id)].id@ == id,
    decreases es.len(),
{
    if es.len() == 0 || es[0].id@ == id {
    } else {
        lemma_position(es.drop_first(), id);
        let p = position(es.drop_first(), id);
        assert forall|k: int| 0 <= k < 1 + p implies es[k].id@ != id by {
            if k > 0 {
                assert(es.drop_first()[k - 1] == es[k]);
            }
        }
        if p < es.drop_first().len() {
            assert(es.drop_first()[p] == es[1 + p]);
        }
    }
}

pub proof fn lemma_position_is(es: Seq<JobStatusEntry>, id: Seq<char>, i: int)
    requires
        0 <= i <= es.len(),
        forall|k: int| 0 <= k < i ==> es[k].id@ != id,
        i == es.len() || es[i].id@ == id,
    ensures
        position(es, id) == i,
    decreases es.len(),
{
    if i > 0 {
        assert forall|k: int| 0 <= k < i - 1 implies es.drop_first()[k].id@ != id by {
            assert(es.drop_first()[k] == es[k + 1]);
        }
        lemma_position_is(es.drop_first(), id, i - 1);
    }
}

/// The records with the record of the job `id`, if one is kept, replaced by
/// what `change` makes of it.
pub open spec fn changed(
    es: Seq<JobStatusEntry>,
    id: Seq<char>,
    change: spec_fn(JobStatusEntry) -> JobStatusEntry,
) -> Seq<JobStatusEntry> {
    if known(es, id) {
        es.update(position(es, id), change(es[position(es, id)]))
    } else {
        es
    }
}

/// The records after the status of the job `id` was set at `now`.
pub open spec fn status_set(
    es: Seq<JobStatusEntry>,
    id: Seq<char>,
    status: JobStatus,
    now: Timestamp,
) -> Seq<JobStatusEntry> {
    changed(es, id, |e: JobStatusEntry| e.with_status(status, now))
}

/// The records after the job `id` failed with a message at `now`.
pub open spec fn failure_set(
    es: Seq<JobStatusEntry>,
    id: Seq<char>,
    error: String,
    now: Timestamp,
) -> Seq<JobStatusEntry> {
    changed(es, id, |e: JobStatusEntry| e.failed_with(error, now))
}

/// The records after the job `id` was found partially done at `now`.
pub open spec fn partial_set(
    es: Seq<JobStatusEntry>,
    id: Seq<char>,
    state: PartialEditState,
    now: Timestamp,
) -> Seq<JobStatusEntry> {
    changed(es, id, |e: JobStatusEntry| e.partial_with(state, now))
}

/// The records after the job `id` was marked as run at `now`.
pub open spec fn ran_marked(es: Seq<JobStatusEntry>, id: Seq<char>, now: Timestamp) -> Seq<
    JobStatusEntry,
> {
    changed(es, id, |e: JobStatusEntry| e.flagged(true, now))
}

/// The records after the job `id` was reset at `now`.
pub open spec fn job_reset(es: Seq<JobStatusEntry>, id: Seq<char>, now: Timestamp) -> Seq<
    JobStatusEntry,
> {
    changed(es, id, |e: JobStatusEntry| e.reset(now))
}

/// The records after the partial state of the job `id` was dropped.
pub open spec fn partial_cleared(es: Seq<JobStatusEntry>, id: Seq<char>) -> Seq<JobStatusEntry> {
    changed(es, id, |e: JobStatusEntry| e.without_partial())
}

/// The records after an update of the job `id` at `now`.
pub open spec fn updated(
    es: Seq<JobStatusEntry>,
    id: Seq<char>,
    update: StatusUpdate,
    now: Timestamp,
) -> Seq<JobStatusEntry> {
    match update {
        StatusUpdate::Status(status) => status_set(es, id, status, now),
        StatusUpdate::Fail(message) => failure_set(es, id, message, now),
        StatusUpdate::Partial(state) => partial_set(es, id, state, now),
        StatusUpdate::MarkRan => ran_marked(es, id, now),
    }
}

/// The records after the updates of the job `id`, made in order at `now`.
pub open spec fn all_updated(
    es: Seq<JobStatusEntry>,
    id: Seq<char>,
    updates: Seq<StatusUpdate>,
    now: Timestamp,
) -> Seq<JobStatusEntry>
    decreases updates.len(),
{
    if updates.len() == 0 {
        es
    } else {
        updated(all_updated(es, id, updates.drop_last(), now), id, updates.last(), now)
    }
}

/// An update leaves the job with a record, or without one, as it was.
pub proof fn lemma_updated_known(
    es: Seq<JobStatusEntry>,
    id: Seq<char>,
    update: StatusUpdate,
    now: Timestamp,
)
    ensures
        known(updated(es, id, update, now), id) == known(es, id),
{
    lemma_position(es, id);
    let after = updated(es, id, update, now);
    if known(es, id) {
        let p = position(es, id);
        assert(after.len() == es.len());
        assert(after[p].id@ == id);
        assert forall|k: int| 0 <= k < p implies after[k].id@ != id by {
            assert(after[k] == es[k]);
        }
        lemma_position_is(after, id, p);
    }
}

/// The result of a change to the record of the job `id`: an error exactly
/// where no record of the job is kept.
pub open spec fn found_or_error(
    r: Result<(), StatusError>,
    es: Seq<JobStatusEntry>,
    id: Seq<char>,
) -> bool {
    &&& r is Ok == known(es, id)
    &&& r matches Err(e) ==> e matches StatusError::JobNotFound(name) && name@ == id
}

/// The records after the given updates, made in order at `now`; an update
/// of a job without record changes nothing.
pub open spec fn batch_updated(
    es: Seq<JobStatusEntry>,
    updates: Seq<(String, JobStatus)>,
    now: Timestamp,
) -> Seq<JobStatusEntry>
    decreases updates.len(),
{
    if updates.len() == 0 {
        es
    } else {
        changed(
            batch_updated(es, updates.drop_last(), now),
            updates.last().0@,
            |e: JobStatusEntry| e.with_status(updates.last().1, now),
        )
    }
}

/// The records with a fresh one, made at `now`, for each of the discovered
/// jobs that has none yet, in the order in which they are discovered.
pub open spec fn with_discovered(
    es: Seq<JobStatusEntry>,
    discovered: Seq<String>,
    now: Timestamp,
) -> Seq<JobStatusEntry>
    decreases discovered.len(),
{
    if discovered.len() == 0 {
        es
    } else {
        let before = with_discovered(es, discovered.drop_last(), now);
        if known(before, discovered.last()@) {
            before
        } else {
            before.push(JobStatusEntry::created(discovered.last(), now))
        }
    }
}

/// The records after a synchronisation at `now` with the jobs discovered:
/// a fresh record for each new job, and no record of a job that was not
/// discovered.
pub open spec fn synced(es: Seq<JobStatusEntry>, discovered: Seq<String>, now: Timestamp) -> Seq<
    JobStatusEntry,
> {
    with_discovered(es, discovered, now).filter(
        |e: JobStatusEntry| strs(discovered).contains(e.id@),
    )
}

/// The records that the references point to.
pub open spec fn entry_refs(refs: Seq<&JobStatusEntry>) -> Seq<JobStatusEntry> {
    Seq::new(refs.len(), |i: int| *refs[i])
}

/// How many jobs are in each status.
#[derive(Debug, Clone, Copy, PartialEq, Eq, Structural)]
pub struct StatusSummary {
    pub total: usize,
    pub created: usize,
    pub pending_test: usize,
    pub pending_work: usize,
    pub pending_verification: usize,
    pub pending_test_run: usize,
    pub passed: usize,
    pub failed: usize,
    pub partial: usize,
}

impl StatusSummary {
    /// The number of jobs that wait for a step of their run.
    pub open spec fn pending(self) -> int {
        self.pending_test + self.pending_work + self.pending_verification + self.pending_test_run
    }

    /// The summary in one line.
    pub open spec fn shown(self) -> Seq<char> {
        "Total: "@ + decimal(self.total as nat) + " | Created: "@ + decimal(self.created as nat)
            + " | Pending: "@ + decimal(self.pending() as nat) + " | Partial: "@ + decimal(
            self.partial as nat,
        ) + " | Passed: "@ + decimal(self.passed as nat) + " | Failed: "@ + decimal(
            self.failed as nat,
        )
    }

    /// Writes the summary in one line.
    pub fn line(&self) -> (r: String)
        requires
            self.pending() <= usize::MAX,
        ensures
            r@ == self.shown(),
    {
        let pending = self.pending_test + self.pending_work + self.pending_verification
            + self.pending_test_run;
        let mut out: Vec<char> = Vec::new();
        append_str(&mut out, "Total: ");
        append_decimal(&mut out, self.total);
        append_str(&mut out, " | Created: ");
        append_decimal(&mut out, self.created);
        append_str(&mut out, " | Pending: ");
        append_decimal(&mut out, pending);
        append_str(&mut out, " | Partial: ");
        append_decimal(&mut out, self.partial);
        append_str(&mut out, " | Passed: ");
        append_decimal(&mut out, self.passed);
        append_str(&mut out, " | Failed: ");
        append_decimal(&mut out, self.failed);
        assert(out@ =~= self.shown());
        string_of(&out)
    }
}

/// The records in ascending order of their jobs, with `x` put behind those
/// whose job is not greater.
pub open spec fn with_entry(s: Seq<JobStatusEntry>, x: JobStatusEntry) -> Seq<JobStatusEntry>
    decreases s.len(),
{
    if s.len() == 0 {
        seq![x]
    } else if lex_less(x.id@, s[0].id@) {
        seq![x] + s
    } else {
        seq![s[0]] + with_entry(s.drop_first(), x)
    }
}

/// The records in ascending order of their jobs.
pub open spec fn by_id(es: Seq<JobStatusEntry>) -> Seq<JobStatusEntry>
    decreases es.len(),
{
    if es.len() == 0 {
        Seq::empty()
    } else {
        with_entry(by_id(es.drop_last()), es.last())
    }
}

/// The number of records with the given status.
pub open spec fn count_of(es: Seq<JobStatusEntry>, status: JobStatus) -> nat {
    es.filter(|e: JobStatusEntry| e.status == status).len()
}

/// The selections of records that the store offers.
#[derive(Clone, Copy)]
enum Selection {
    All,
    WithStatus(JobStatus),
    Stuck,
    Ready,
    ReadyIncludingRan,
    RanNotPassed,
}

spec fn selects(sel: Selection, e: JobStatusEntry) -> bool {
    match sel {
        Selection::All => true,
        Selection::WithStatus(s) => e.status == s,
        Selection::Stuck => e.status.stuck(),
        Selection::Ready => e.status.ready() && !e.ran,
        Selection::ReadyIncludingRan => e.status.ready(),
        Selection::RanNotPassed => e.ran && e.status != JobStatus::Pass,
    }
}

fn is_selected(sel: Selection, e: &JobStatusEntry) -> (r: bool)
    ensures
        r == selects(sel, *e),
{
    match sel {
        Selection::All => true,
        Selection::WithStatus(s) => e.status == s,
        Selection::Stuck => e.status.is_stuck(),
        Selection::Ready => e.status.is_ready() && !e.ran,
        Selection::ReadyIncludingRan => e.status.is_ready(),
        Selection::RanNotPassed => e.ran && e.status != JobStatus::Pass,
    }
}

/// The records of the known jobs, in the order in which the jobs became
/// known. No two records are of the same job.
#[derive(Debug)]
pub struct StatusManager {
    entries: Vec<JobStatusEntry>,
}

impl StatusManager {
    /// The records, in order.
    pub closed spec fn entries(&self) -> Seq<JobStatusEntry> {
        self.entries@
    }

    /// No two records are of the same job.
    pub open spec fn wf(&self) -> bool {
        ids_distinct(self.entries())
    }

    /// A store without records.
    pub fn new() -> (r: Self)
        ensures
            r.wf(),
            r.entries().len() == 0,
    {
        StatusManager { entries: Vec::new() }
    }

    /// A store of the given records, read in order: a record of a job that
    /// has one already takes its place.
    pub fn from_entries(entries: Vec<JobStatusEntry>) -> (r: Self)
        ensures
            r.wf(),
            r.entries() == loaded(entries@),
    {
        let mut r = StatusManager::new();
        let mut rest = entries;
        let ghost all = rest@;
        let n = rest.len();
        let mut i: usize = 0;
        assert(all.take(0) =~= Seq::<JobStatusEntry>::empty());
        assert(all.skip(0) == all);
        while i < n
            invariant
                i <= n,
                n == all.len(),
                rest@ == all.skip(i as int),
                r.wf(),
                r.entries() == loaded(all.take(i as int)),
            decreases n - i,
        {
            proof {
                assert(all.take(i + 1).drop_last() =~= all.take(i as int));
                assert(all.take(i + 1).last() == all[i as int]);
                assert(all.skip(i as int).remove(0) =~= all.skip(i + 1));
            }
            let e = rest.remove(0);
            match r.find_index(e.id.as_str()) {
                Some(k) => {
                    proof {
                        lemma_position(r.entries@, e.id@);
                    }
                    r.entries[k] = e;
                },
                None => {
                    proof {
                        lemma_position(r.entries@, e.id@);
                    }
                    r.entries.push(e);
                },
            }
            i += 1;
        }
        assert(all.take(all.len() as int) == all);
        r
    }

    fn find_index(&self, job_id: &str) -> (r: Option<usize>)
        ensures
            match r {
                Some(i) => i == position(self.entries(), job_id@) && i < self.entries().len(),
                None => !known(self.entries(), job_id@),
            },
    {
        let mut i: usize = 0;
        while i < self.entries.len()
            invariant
                i <= self.entries.len(),
                forall|k: int| 0 <= k < i ==> self.entries@[k].id@ != job_id@,
            decreases self.entries.len() - i,
        {
            if same_text(self.entries[i].id.as_str(), job_id) {
                proof {
                    lemma_position_is(self.entries@, job_id@, i as int);
                }
                return Some(i);
            }
            i += 1;
        }
        proof {
            lemma_position_is(self.entries@, job_id@, i as int);
        }
        None
    }

    /// The record of a job.
    pub fn get(&self, job_id: &str) -> (r: Option<&JobStatusEntry>)
        ensures
            r is Some == known(self.entries(), job_id@),
            r matches Some(e) ==> *e == self.entries()[position(self.entries(), job_id@)],
    {
        match self.find_index(job_id) {
            Some(i) => Some(&self.entries[i]),
            None => None,
        }
    }

    /// Sets the status of a job at `now`. The stored error is cleared
    /// unless the new status is `Fail`.
    pub fn update_status_at(&mut self, job_id: &str, status: JobStatus, now: Timestamp) -> (r:
        Result<(), StatusError>)
        requires
            old(self).wf(),
        ensures
            final(self).wf(),
            final(self).entries() == status_set(old(self).entries(), job_id@, status, now),
            found_or_error(r, old(self).entries(), job_id@),
    {
        match self.find_index(job_id) {
            Some(i) => {
                self.entries[i].update_status_at(status, now);
                assert(self.entries@ =~= status_set(old(self).entries(), job_id@, status, now));
                Ok(())
            },
            None => Err(StatusError::JobNotFound(job_id.to_owned())),
        }
    }

    /// Sets the status of a job, at this moment.
    pub fn update_status(&mut self, job_id: &str, status: JobStatus) -> (r: Result<
        (),
        StatusError,
    >)
        requires
            old(self).wf(),
        ensures
            final(self).wf(),
            exists|now: Timestamp|
                final(self).entries() == #[trigger] status_set(
                    old(self).entries(),
                    job_id@,
                    status,
                    now,
                ),
            found_or_error(r, old(self).entries(), job_id@),
    {
        self.update_status_at(job_id, status, current_time())
    }

    /// Makes the given updates in order at `now`; an update of a job
    /// without record changes nothing.
    pub fn update_statuses_batch_at(&mut self, updates: &[(String, JobStatus)], now: Timestamp)
        requires
            old(self).wf(),
        ensures
            final(self).wf(),
            final(self).entries() == batch_updated(old(self).entries(), updates@, now),
    {
        let mut k: usize = 0;
        assert(updates@.take(0) =~= Seq::<(String, JobStatus)>::empty());
        while k < updates.len()
            invariant
                k <= updates.len(),
                self.wf(),
                self.entries() == batch_updated(old(self).entries(), updates@.take(k as int), now),
            decreases updates.len() - k,
        {
            assert(updates@.take(k + 1).drop_last() == updates@.take(k as int));
            assert(updates@.take(k + 1).last() == updates@[k as int]);
            let _ = self.update_status_at(updates[k].0.as_str(), updates[k].1, now);
            k += 1;
        }
        assert(updates@.take(updates.len() as int) == updates@);
    }

    /// Makes the given updates in order, at this moment.
    pub fn update_statuses_batch(&mut self, updates: &[(String, JobStatus)])
        requires
            old(self).wf(),
        ensures
            final(self).wf(),
            exists|now: Timestamp|
                final(self).entries() == #[trigger] batch_updated(
                    old(self).entries(),
                    updates@,
                    now,
                ),
    {
        self.update_statuses_batch_at(updates, current_time());
    }

    /// Fails a job with a message at `now`.
    pub fn set_failed_at(&mut self, job_id: &str, error: String, now: Timestamp) -> (r: Result<
        (),
        StatusError,
    >)
        requires
            old(self).wf(),
        ensures
            final(self).wf(),
            final(self).entries() == failure_set(old(self).entries(), job_id@, error, now),
            found_or_error(r, old(self).entries(), job_id@),
    {
        match self.find_index(job_id) {
            Some(i) => {
                self.entries[i].set_failed_at(error, now);
                assert(self.entries@ =~= failure_set(old(self).entries(), job_id@, error, now));
                Ok(())
            },
            None => Err(StatusError::JobNotFound(job_id.to_owned())),
        }
    }

    /// Fails a job with a message, at this moment.
    pub fn set_failed(&mut self, job_id: &str, error: String) -> (r: Result<(), StatusError>)
        requires
            old(self).wf(),
        ensures
            final(self).wf(),
            exists|now: Timestamp|
                final(self).entries() == #[trigger] failure_set(
                    old(self).entries(),
                    job_id@,
                    error,
                    now,
                ),
            found_or_error(r, old(self).entries(), job_id@),
    {
        self.set_failed_at(job_id, error, current_time())
    }

    /// Marks a job as partially done, with what its edits achieved, at
    /// `now`.
    pub fn set_partial_at(&mut self, job_id: &str, state: PartialEditState, now: Timestamp) -> (r:
        Result<(), StatusError>)
        requires
            old(self).wf(),
        ensures
            final(self).wf(),
            final(self).entries() == partial_set(old(self).entries(), job_id@, state, now),
            found_or_error(r, old(self).entries(), job_id@),
    {
        match self.find_index(job_id) {
            Some(i) => {
                self.entries[i].set_partial_at(state, now);
                assert(self.entries@ =~= partial_set(old(self).entries(), job_id@, state, now));
                Ok(())
            },
            None => Err(StatusError::JobNotFound(job_id.to_owned())),
        }
    }

    /// Marks a job as partially done, at this moment.
    pub fn set_partial(&mut self, job_id: &str, state: PartialEditState) -> (r: Result<
        (),
        StatusError,
    >)
        requires
            old(self).wf(),
        ensures
            final(self).wf(),
            exists|now: Timestamp|
                final(self).entries() == #[trigger] partial_set(
                    old(self).entries(),
                    job_id@,
                    state,
                    now,
                ),
            found_or_error(r, old(self).entries(), job_id@),
    {
        self.set_partial_at(job_id, state, current_time())
    }

    /// Marks a job as run at `now`, whatever its status.
    pub fn mark_ran_at(&mut self, job_id: &str, now: Timestamp) -> (r: Result<(), StatusError>)
        requires
            old(self).wf(),
        ensures
            final(self).wf(),
            final(self).entries() == ran_marked(old(self).entries(), job_id@, now),
            found_or_error(r, old(self).entries(), job_id@),
    {
        match self.find_index(job_id) {
            Some(i) => {
                self.entries[i].mark_ran_at(now);
                assert(self.entries@ =~= ran_marked(old(self).entries(), job_id@, now));
                Ok(())
            },
            None => Err(StatusError::JobNotFound(job_id.to_owned())),
        }
    }

    /// Marks a job as run, at this moment.
    pub fn mark_ran(&mut self, job_id: &str) -> (r: Result<(), StatusError>)
        requires
            old(self).wf(),
        ensures
            final(self).wf(),
            exists|now: Timestamp|
                final(self).entries() == #[trigger] ran_marked(old(self).entries(), job_id@, now),
            found_or_error(r, old(self).entries(), job_id@),
    {
        self.mark_ran_at(job_id, current_time())
    }

    /// Returns a job to `Created` at `now`: no error, no partial state, not
    /// run.
    pub fn reset_job_at(&mut self, job_id: &str, now: Timestamp) -> (r: Result<(), StatusError>)
        requires
            old(self).wf(),
        ensures
            final(self).wf(),
            final(self).entries() == job_reset(old(self).entries(), job_id@, now),
            found_or_error(r, old(self).entries(), job_id@),
    {
        match self.find_index(job_id) {
            Some(i) => {
                self.entries[i].reset_at(now);
                assert(self.entries@ =~= job_reset(old(self).entries(), job_id@, now));
                Ok(())
            },
            None => Err(StatusError::JobNotFound(job_id.to_owned())),
        }
    }

    /// Returns a job to `Created`, at this moment.
    pub fn reset_job(&mut self, job_id: &str) -> (r: Result<(), StatusError>)
        requires
            old(self).wf(),
        ensures
            final(self).wf(),
            exists|now: Timestamp|
                final(self).entries() == #[trigger] job_reset(old(self).entries(), job_id@, now),
            found_or_error(r, old(self).entries(), job_id@),
    {
        self.reset_job_at(job_id, current_time())
    }

    /// Drops the partial state of a job; a job without record changes
    /// nothing.
    pub fn clear_partial_state(&mut self, job_id: &str)
        requires
            old(self).wf(),
        ensures
            final(self).wf(),
            final(self).entries() == partial_cleared(old(self).entries(), job_id@),
    {
        match self.find_index(job_id) {
            Some(i) => {
                self.entries[i].clear_partial();
                assert(self.entries@ =~= partial_cleared(old(self).entries(), job_id@));
            },
            None => {},
        }
    }

    /// Makes one update of a job's record at `now`.
    pub fn apply_update(&mut self, job_id: &str, update: StatusUpdate, now: Timestamp) -> (r:
        Result<(), StatusError>)
        requires
            old(self).wf(),
        ensures
            final(self).wf(),
            final(self).entries() == updated(old(self).entries(), job_id@, update, now),
            found_or_error(r, old(self).entries(), job_id@),
    {
        match update {
            StatusUpdate::Status(status) => self.update_status_at(job_id, status, now),
            StatusUpdate::Fail(message) => self.set_failed_at(job_id, message, now),
            StatusUpdate::Partial(state) => self.set_partial_at(job_id, state, now),
            StatusUpdate::MarkRan => self.mark_ran_at(job_id, now),
        }
    }

    /// Makes the updates of a job's record in order at `now`, and tells
    /// whether a record of the job is kept.
    pub fn apply_updates(&mut self, job_id: &str, updates: Vec<StatusUpdate>, now: Timestamp) -> (r:
        Result<(), StatusError>)
        requires
            old(self).wf(),
        ensures
            final(self).wf(),
            final(self).entries() == all_updated(old(self).entries(), job_id@, updates@, now),
            found_or_error(r, old(self).entries(), job_id@),
    {
        let ghost all = updates@;
        let mut rest = updates;
        let n = rest.len();
        let mut i: usize = 0;
        assert(all.take(0) =~= Seq::<StatusUpdate>::empty());
        assert(all.skip(0) == all);
        while i < n
            invariant
                i <= n,
                n == all.len(),
                rest@ == all.skip(i as int),
                self.wf(),
                self.entries() == all_updated(old(self).entries(), job_id@, all.take(i as int), now),
                known(self.entries(), job_id@) == known(old(self).entries(), job_id@),
            decreases n - i,
        {
            proof {
                assert(all.take(i + 1).drop_last() =~= all.take(i as int));
                assert(all.take(i + 1).last() == all[i as int]);
                assert(all.skip(i as int).remove(0) =~= all.skip(i + 1));
                lemma_updated_known(self.entries(), job_id@, all[i as int], now);
            }
            let u = rest.remove(0);
            let _ = self.apply_update(job_id, u, now);
            i += 1;
        }
        assert(all.take(all.len() as int) == all);
        if self.find_index(job_id).is_some() {
            Ok(())
        } else {
            Err(StatusError::JobNotFound(job_id.to_owned()))
        }
    }

    /// The failed edits of a job that is partially done.
    pub fn get_failed_edits(&self, job_id: &str) -> (r: Option<Vec<FailedEdit>>)
        ensures
            r is Some == (known(self.entries(), job_id@) && self.entries()[position(
                self.entries(),
                job_id@,
            )].partial_state is Some),
            r matches Some(v) ==> v@ == self.entries()[position(
                self.entries(),
                job_id@,
            )].partial_state->0.failed_edits@,
    {
        match self.find_index(job_id) {
            Some(i) => match &self.entries[i].partial_state {
                Some(state) => Some(copy_failed_edits(&state.failed_edits)),
                None => None,
            },
            None => None,
        }
    }

    /// Synchronises the records at `now` with the jobs discovered: a fresh
    /// record for each new job, and no record of a job that was not
    /// discovered.
    pub fn sync_at(&mut self, discovered_jobs: &[String], now: Timestamp)
        requires
            old(self).wf(),
        ensures
            final(self).wf(),
            final(self).entries() == synced(old(self).entries(), discovered_jobs@, now),
    {
        let mut k: usize = 0;
        assert(discovered_jobs@.take(0) =~= Seq::<String>::empty());
        while k < discovered_jobs.len()
            invariant
                k <= discovered_jobs.len(),
                self.wf(),
                self.entries() == with_discovered(
                    old(self).entries(),
                    discovered_jobs@.take(k as int),
                    now,
                ),
            decreases discovered_jobs.len() - k,
        {
            assert(discovered_jobs@.take(k + 1).drop_last() == discovered_jobs@.take(k as int));
            assert(discovered_jobs@.take(k + 1).last() == discovered_jobs@[k as int]);
            if self.find_index(discovered_jobs[k].as_str()).is_none() {
                proof {
                    lemma_position(self.entries@, discovered_jobs@[k as int]@);
                }
                self.entries.push(JobStatusEntry::new_at(discovered_jobs[k].clone(), now));
            }
            k += 1;
        }
        assert(discovered_jobs@.take(discovered_jobs.len() as int) == discovered_jobs@);
        let ghost all = self.entries@;
        let ghost keep = |e: JobStatusEntry| strs(discovered_jobs@).contains(e.id@);
        let mut rest: Vec<JobStatusEntry> = Vec::new();
        std::mem::swap(&mut self.entries, &mut rest);
        let mut i: usize = 0;
        let n = rest.len();
        assert(all.take(0).filter(keep) =~= self.entries@);
        assert(all.skip(0) == all);
        while i < n
            invariant
                i <= n,
                n == all.len(),
                ids_distinct(all),
                keep == (|e: JobStatusEntry| strs(discovered_jobs@).contains(e.id@)),
                rest@ == all.skip(i as int),
                self.entries@ == all.take(i as int).filter(keep),
                ids_distinct(self.entries@),
                forall|k: int|
                    0 <= k < self.entries@.len() ==> exists|j: int|
                        0 <= j < i && all[j] == #[trigger] self.entries@[k],
            decreases n - i,
        {
            proof {
                reveal(Seq::filter);
                assert(all.take(i + 1).drop_last() =~= all.take(i as int));
                assert(all.take(i + 1).last() == all[i as int]);
                assert(all.skip(i as int).remove(0) =~= all.skip(i + 1));
            }
            let e = rest.remove(0);
            assert(e == all[i as int]);
            if holds_id(discovered_jobs, e.id.as_str()) {
                let ghost before = self.entries@;
                self.entries.push(e);
                assert forall|k: int| 0 <= k < self.entries@.len() implies exists|j: int|
                    0 <= j < i + 1 && all[j] == #[trigger] self.entries@[k] by {
                    if k < before.len() {
                        let j = choose|j: int| 0 <= j < i && all[j] == before[k];
                        assert(all[j] == self.entries@[k]);
                    } else {
                        assert(all[i as int] == self.entries@[k]);
                    }
                }
                assert forall|a: int, b: int| 0 <= a < b < self.entries@.len() implies self.entries@[a].id@
                    != self.entries@[b].id@ by {
                    if b == before.len() {
                        let j = choose|j: int| 0 <= j < i && all[j] == before[a];
                    }
                }
            }
            i += 1;
        }
        assert(all.take(all.len() as int) == all);
    }

    /// Synchronises the records with the jobs discovered, at this moment.
    pub fn sync_with_jobs(&mut self, discovered_jobs: &[String])
        requires
            old(self).wf(),
        ensures
            final(self).wf(),
            exists|now: Timestamp|
                final(self).entries() == #[trigger] synced(
                    old(self).entries(),
                    discovered_jobs@,
                    now,
                ),
    {
        self.sync_at(discovered_jobs, current_time());
    }

    fn select(&self, sel: Selection) -> (r: Vec<&JobStatusEntry>)
        ensures
            entry_refs(r@) == self.entries().filter(|e: JobStatusEntry| selects(sel, e)),
    {
        let ghost all = self.entries@;
        let ghost pick = |e: JobStatusEntry| selects(sel, e);
        let mut r: Vec<&JobStatusEntry> = Vec::new();
        let mut i: usize = 0;
        assert(entry_refs(r@) =~= all.take(0).filter(pick));
        while i < self.entries.len()
            invariant
                i <= self.entries.len(),
                all == self.entries@,
                pick == (|e: JobStatusEntry| selects(sel, e)),
                entry_refs(r@) == all.take(i as int).filter(pick),
            decreases self.entries.len() - i,
        {
            proof {
                reveal(Seq::filter);
                assert(all.take(i + 1).drop_last() =~= all.take(i as int));
                assert(all.take(i + 1).last() == all[i as int]);
            }
            let ghost before = entry_refs(r@);
            if is_selected(sel, &self.entries[i]) {
                r.push(&self.entries[i]);
                assert(entry_refs(r@) =~= before.push(all[i as int]));
            }
            i += 1;
        }
        assert(all.take(all.len() as int) == all);
        r
    }

    /// The records with the given status.
    pub fn get_by_status(&self, status: JobStatus) -> (r: Vec<&JobStatusEntry>)
        ensures
            entry_refs(r@) == self.entries().filter(|e: JobStatusEntry| e.status == status),
    {
        let r = self.select(Selection::WithStatus(status));
        assert((|e: JobStatusEntry| selects(Selection::WithStatus(status), e)) =~= (|
            e: JobStatusEntry,
        | e.status == status));
        r
    }

    /// The records of the jobs left in an intermediate state.
    pub fn get_stuck_jobs(&self) -> (r: Vec<&JobStatusEntry>)
        ensures
            entry_refs(r@) == self.entries().filter(|e: JobStatusEntry| e.status.stuck()),
    {
        let r = self.select(Selection::Stuck);
        assert((|e: JobStatusEntry| selects(Selection::Stuck, e)) =~= (|e: JobStatusEntry|
            e.status.stuck()));
        r
    }

    /// The records of the jobs that wait to be processed and have not run.
    pub fn get_ready_jobs(&self) -> (r: Vec<&JobStatusEntry>)
        ensures
            entry_refs(r@) == self.entries().filter(
                |e: JobStatusEntry| e.status.ready() && !e.ran,
            ),
    {
        let r = self.select(Selection::Ready);
        assert((|e: JobStatusEntry| selects(Selection::Ready, e)) =~= (|e: JobStatusEntry|
            e.status.ready() && !e.ran));
        r
    }

    /// The records of the jobs that wait to be processed, run or not.
    pub fn get_ready_jobs_include_ran(&self) -> (r: Vec<&JobStatusEntry>)
        ensures
            entry_refs(r@) == self.entries().filter(|e: JobStatusEntry| e.status.ready()),
    {
        let r = self.select(Selection::ReadyIncludingRan);
        assert((|e: JobStatusEntry| selects(Selection::ReadyIncludingRan, e)) =~= (|
            e: JobStatusEntry,
        | e.status.ready()));
        r
    }

    /// The records of the jobs that have run and did not pass.
    pub fn get_ran_non_pass_jobs(&self) -> (r: Vec<&JobStatusEntry>)
        ensures
            entry_refs(r@) == self.entries().filter(
                |e: JobStatusEntry| e.ran && e.status != JobStatus::Pass,
            ),
    {
        let r = self.select(Selection::RanNotPassed);
        assert((|e: JobStatusEntry| selects(Selection::RanNotPassed, e)) =~= (|
            e: JobStatusEntry,
        | e.ran && e.status != JobStatus::Pass));
        r
    }

    /// The records of the jobs that are partially done.
    pub fn get_partial_jobs(&self) -> (r: Vec<&JobStatusEntry>)
        ensures
            entry_refs(r@) == self.entries().filter(
                |e: JobStatusEntry| e.status == JobStatus::Partial,
            ),
    {
        self.get_by_status(JobStatus::Partial)
    }

    /// All records, in ascending order of their jobs: the order in which
    /// they are written to the status file.
    pub fn entries_by_id(&self) -> (r: Vec<&JobStatusEntry>)
        ensures
            entry_refs(r@) == by_id(self.entries()),
    {
        let mut r: Vec<&JobStatusEntry> = Vec::new();
        let mut i: usize = 0;
        assert(entry_refs(r@) =~= by_id(self.entries@.take(0)));
        while i < self.entries.len()
            invariant
                i <= self.entries.len(),
                entry_refs(r@) == by_id(self.entries@.take(i as int)),
            decreases self.entries.len() - i,
        {
            assert(self.entries@.take(i + 1).drop_last() == self.entries@.take(i as int));
            assert(self.entries@.take(i + 1).last() == self.entries@[i as int]);
            let x = &self.entries[i];
            let key = chars_of(x.id.as_str());
            let ghost all = entry_refs(r@);
            let mut p: usize = 0;
            assert(all.skip(0) == all);
            assert(all.take(0) + with_entry(all, *x) =~= with_entry(all, *x));
            while p < r.len() && !is_lex_less(&key, &chars_of(r[p].id.as_str()))
                invariant
                    p <= r.len(),
                    key@ == x.id@,
                    all == entry_refs(r@),
                    with_entry(all, *x) == all.take(p as int) + with_entry(all.skip(p as int), *x),
                decreases r.len() - p,
            {
                let ghost tail = all.skip(p as int);
                assert(tail[0] == *r@[p as int]);
                assert(tail.drop_first() == all.skip(p + 1));
                assert(all.take(p as int) + (seq![tail[0]] + with_entry(all.skip(p + 1), *x))
                    =~= all.take(p + 1) + with_entry(all.skip(p + 1), *x));
                p += 1;
            }
            if p < r.len() {
                let ghost tail = all.skip(p as int);
                assert(tail[0] == *r@[p as int]);
                r.insert(p, x);
                assert(entry_refs(r@) =~= all.take(p as int) + (seq![*x] + tail));
            } else {
                assert(all.skip(r.len() as int) =~= Seq::<JobStatusEntry>::empty());
                r.push(x);
                assert(entry_refs(r@) =~= all.take(all.len() as int) + seq![*x]);
            }
            i += 1;
        }
        assert(self.entries@.take(self.entries.len() as int) == self.entries@);
        r
    }

    /// All records, in order.
    pub fn all_entries(&self) -> (r: Vec<&JobStatusEntry>)
        ensures
            entry_refs(r@) == self.entries(),
    {
        let r = self.select(Selection::All);
        proof {
            lemma_filter_all(self.entries@, |e: JobStatusEntry| selects(Selection::All, e));
        }
        r
    }

    /// How many jobs are in each status.
    pub fn get_summary(&self) -> (r: StatusSummary)
        ensures
            r.total == self.entries().len(),
            r.created == count_of(self.entries(), JobStatus::Created),
            r.pending_test == count_of(self.entries(), JobStatus::PendingTest),
            r.pending_work == count_of(self.entries(), JobStatus::PendingWork),
            r.pending_verification == count_of(self.entries(), JobStatus::PendingVerification),
            r.pending_test_run == count_of(self.entries(), JobStatus::PendingTestRun),
            r.passed == count_of(self.entries(), JobStatus::Pass),
            r.failed == count_of(self.entries(), JobStatus::Fail),
            r.partial == count_of(self.entries(), JobStatus::Partial),
    {
        let ghost all = self.entries@;
        let mut r = StatusSummary {
            total: 0,
            created: 0,
            pending_test: 0,
            pending_work: 0,
            pending_verification: 0,
            pending_test_run: 0,
            passed: 0,
            failed: 0,
            partial: 0,
        };
        let mut i: usize = 0;
        proof {
            reveal(Seq::filter);
        }
        while i < self.entries.len()
            invariant
                i <= self.entries.len(),
                all == self.entries@,
                r.total == i,
                r.created == count_of(all.take(i as int), JobStatus::Created),
                r.pending_test == count_of(all.take(i as int), JobStatus::PendingTest),
                r.pending_work == count_of(all.take(i as int), JobStatus::PendingWork),
                r.pending_verification == count_of(
                    all.take(i as int),
                    JobStatus::PendingVerification,
                ),
                r.pending_test_run == count_of(all.take(i as int), JobStatus::PendingTestRun),
                r.passed == count_of(all.take(i as int), JobStatus::Pass),
                r.failed == count_of(all.take(i as int), JobStatus::Fail),
                r.partial == count_of(all.take(i as int), JobStatus::Partial),
                r.created + r.pending_test + r.pending_work + r.pending_verification
                    + r.pending_test_run + r.passed + r.failed + r.partial == i,
            decreases self.entries.len() - i,
        {
            proof {
                reveal(Seq::filter);
                assert(all.take(i + 1).drop_last() =~= all.take(i as int));
                assert(all.take(i + 1).last() == all[i as int]);
            }
            match self.entries[i].status {
                JobStatus::Created => r.created += 1,
                JobStatus::PendingTest => r.pending_test += 1,
                JobStatus::PendingWork => r.pending_work += 1,
                JobStatus::PendingVerification => r.pending_verification += 1,
                JobStatus::PendingTestRun => r.pending_test_run += 1,
                JobStatus::Pass => r.passed += 1,
                JobStatus::Fail => r.failed += 1,
                JobStatus::Partial => r.partial += 1,
            }
            r.total += 1;
            i += 1;
        }
        assert(all.take(all.len() as int) == all);
        r
    }
}

/// The records with the given ones read in, in order: a record of a job
/// that has one already takes its place.
pub open spec fn loaded(es: Seq<JobStatusEntry>) -> Seq<JobStatusEntry>
    decreases es.len(),
{
    if es.len() == 0 {
        es
    } else {
        let before = loaded(es.drop_last());
        if known(before, es.last().id@) {
            before.update(position(before, es.last().id@), es.last())
        } else {
            before.push(es.last())
        }
    }
}

/// Discovering jobs adds records behind those kept and keeps the jobs of
/// the records distinct.
pub proof fn lemma_with_discovered(es: Seq<JobStatusEntry>, discovered: Seq<String>, now: Timestamp)
    requires
        ids_distinct(es),
    ensures
        ids_distinct(with_discovered(es, discovered, now)),
        with_discovered(es, discovered, now).len() >= es.len(),
        with_discovered(es, discovered, now).take(es.len() as int) == es,
    decreases discovered.len(),
{
    if discovered.len() > 0 {
        let before = with_discovered(es, discovered.drop_last(), now);
        lemma_with_discovered(es, discovered.drop_last(), now);
        lemma_position(before, discovered.last()@);
        let after = with_discovered(es, discovered, now);
        assert(after.take(es.len() as int) =~= before.take(es.len() as int));
    } else {
        assert(es.take(es.len() as int) =~= es);
    }
}

/// A job that is reset and then found again by a synchronisation is back
/// at `Created`, without error or partial state, and counts as not run,
/// whatever its status was.
pub proof fn lemma_reset_then_sync(
    es: Seq<JobStatusEntry>,
    id: Seq<char>,
    discovered: Seq<String>,
    reset_time: Timestamp,
    sync_time: Timestamp,
)
    requires
        ids_distinct(es),
        known(es, id),
        strs(discovered).contains(id),
    ensures
        ({
            let after = synced(job_reset(es, id, reset_time), discovered, sync_time);
            let e = after[position(after, id)];
            &&& known(after, id)
            &&& e.status == JobStatus::Created
            &&& !e.ran
            &&& e.error is None
            &&& e.partial_state is None
        }),
{
    let p = position(es, id);
    lemma_position(es, id);
    let fresh = es[p].reset(reset_time);
    let es1 = job_reset(es, id, reset_time);
    assert(es1 == es.update(p, fresh));
    assert(ids_distinct(es1));
    let grown = with_discovered(es1, discovered, sync_time);
    lemma_with_discovered(es1, discovered, sync_time);
    assert(grown.take(es1.len() as int)[p] == es1[p]);
    assert(grown[p] == fresh);
    let keep = |e: JobStatusEntry| strs(discovered).contains(e.id@);
    let after = grown.filter(keep);
    lemma_filter_members(grown, keep);
    assert(grown.contains(fresh));
    assert(after.contains(fresh));
    let k = choose|k: int| 0 <= k < after.len() && after[k] == fresh;
    lemma_position(after, id);
    let q = position(after, id);
    assert(q <= k);
    assert(after.contains(after[q]));
    assert(grown.contains(after[q]));
    let j = choose|j: int| 0 <= j < grown.len() && grown[j] == after[q];
    assert(j == p);
}

fn holds_id(ids: &[String], x: &str) -> (r: bool)
    ensures
        r == strs(ids@).contains(x@),
{
    let mut i: usize = 0;
    while i < ids.len()
        invariant
            i <= ids.len(),
            forall|j: int| 0 <= j < i ==> strs(ids@)[j] != x@,
        decreases ids.len() - i,
    {
        if same_text(ids[i].as_str(), x) {
            assert(strs(ids@)[i as int] == x@);
            return true;
        }
        i += 1;
    }
    false
}

} // verus!
