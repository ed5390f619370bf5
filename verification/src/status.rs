//! The status of a job, and the record kept of each job.

use vstd::prelude::*;

verus! {

/// Where a job stands on its way from creation to a verdict.
#[derive(Debug, Clone, Copy, PartialEq, Eq, Structural)]
pub enum JobStatus {
    /// The job file exists and the job has not been started.
    Created,
    /// A test is being generated for the job.
    PendingTest,
    /// The job's files are being generated.
    PendingWork,
    /// The files are generated and wait for verification.
    PendingVerification,
    /// The generated test is being run.
    PendingTestRun,
    /// Verification passed.
    Pass,
    /// Verification failed.
    Fail,
    /// Some edits were applied and others failed.
    Partial,
}

impl JobStatus {
    /// A finished job: passed or failed.
    pub open spec fn complete(self) -> bool {
        self == JobStatus::Pass || self == JobStatus::Fail
    }

    /// A job left in an intermediate state.
    pub open spec fn stuck(self) -> bool {
        self == JobStatus::PendingTest || self == JobStatus::PendingWork || self
            == JobStatus::PendingVerification || self == JobStatus::PendingTestRun || self
            == JobStatus::Partial
    }

    /// A job that waits to be processed.
    pub open spec fn ready(self) -> bool {
        self == JobStatus::Created
    }

    /// The status that follows `self` in the workflow, with or without the
    /// test-first steps; `None` where the workflow ends. A job whose test
    /// is being generated goes on to its work either way.
    pub open spec fn next(self, tdd_enabled: bool) -> Option<JobStatus> {
        match self {
            JobStatus::Created => if tdd_enabled {
                Some(JobStatus::PendingTest)
            } else {
                Some(JobStatus::PendingWork)
            },
            JobStatus::PendingTest => Some(JobStatus::PendingWork),
            JobStatus::PendingWork => Some(JobStatus::PendingVerification),
            JobStatus::PendingVerification => if tdd_enabled {
                Some(JobStatus::PendingTestRun)
            } else {
                None
            },
            _ => None,
        }
    }

    /// The status as it is shown.
    pub open spec fn shown(self) -> Seq<char> {
        match self {
            JobStatus::Created => "CREATED"@,
            JobStatus::PendingTest => "PENDING TEST"@,
            JobStatus::PendingWork => "PENDING WORK"@,
            JobStatus::PendingVerification => "PENDING VERIFY"@,
            JobStatus::PendingTestRun => "PENDING TEST RUN"@,
            JobStatus::Pass => "PASS"@,
            JobStatus::Fail => "FAIL"@,
            JobStatus::Partial => "PARTIAL"@,
        }
    }

    /// The status as it is shown.
    pub fn label(&self) -> (r: &'static str)
        ensures
            r@ == self.shown(),
    {
        match self {
            JobStatus::Created => "CREATED",
            JobStatus::PendingTest => "PENDING TEST",
            JobStatus::PendingWork => "PENDING WORK",
            JobStatus::PendingVerification => "PENDING VERIFY",
            JobStatus::PendingTestRun => "PENDING TEST RUN",
            JobStatus::Pass => "PASS",
            JobStatus::Fail => "FAIL",
            JobStatus::Partial => "PARTIAL",
        }
    }

    pub fn is_complete(&self) -> (r: bool)
        ensures
            r == self.complete(),
    {
        matches!(self, JobStatus::Pass | JobStatus::Fail)
    }

    pub fn is_stuck(&self) -> (r: bool)
        ensures
            r == self.stuck(),
    {
        matches!(
            self,
            JobStatus::PendingTest | JobStatus::PendingWork | JobStatus::PendingVerification
                | JobStatus::PendingTestRun | JobStatus::Partial
        )
    }

    pub fn is_ready(&self) -> (r: bool)
        ensures
            r == self.ready(),
    {
        matches!(self, JobStatus::Created)
    }

    /// Whether the status belongs to the test-first steps.
    pub fn is_tdd_phase(&self) -> (r: bool)
        ensures
            r == (*self == JobStatus::PendingTest || *self == JobStatus::PendingTestRun),
    {
        matches!(self, JobStatus::PendingTest | JobStatus::PendingTestRun)
    }

    pub fn is_partial(&self) -> (r: bool)
        ensures
            r == (*self == JobStatus::Partial),
    {
        matches!(self, JobStatus::Partial)
    }

    pub fn next_status(&self, tdd_enabled: bool) -> (r: Option<JobStatus>)
        ensures
            r == self.next(tdd_enabled),
    {
        match self {
            JobStatus::Created => if tdd_enabled {
                Some(JobStatus::PendingTest)
            } else {
                Some(JobStatus::PendingWork)
            },
            JobStatus::PendingTest => Some(JobStatus::PendingWork),
            JobStatus::PendingWork => Some(JobStatus::PendingVerification),
            JobStatus::PendingVerification => if tdd_enabled {
                Some(JobStatus::PendingTestRun)
            } else {
                None
            },
            _ => None,
        }
    }
}

/// An edit that was applied.
#[derive(Debug, Clone)]
pub struct SuccessfulEdit {
    pub file_path: String,
    pub find_preview: String,
}

/// An edit that could not be applied.
#[derive(Debug, Clone)]
pub struct FailedEdit {
    pub file_path: String,
    pub find_preview: String,
    pub reason: String,
    pub suggested_line: Option<usize>,
}

/// What an edit job achieved when only part of its edits applied.
#[derive(Debug, Clone)]
pub struct PartialEditState {
    pub successful_edits: Vec<SuccessfulEdit>,
    pub failed_edits: Vec<FailedEdit>,
}

impl PartialEditState {
    pub fn new() -> (r: Self)
        ensures
            r.successful_edits@.len() == 0,
            r.failed_edits@.len() == 0,
    {
        PartialEditState { successful_edits: Vec::new(), failed_edits: Vec::new() }
    }

    /// Records an applied edit after those recorded so far.
    pub fn add_successful_edit(&mut self, file_path: &str, find_preview: &str)
        ensures
            final(self).failed_edits == old(self).failed_edits,
            final(self).successful_edits@.len() == old(self).successful_edits@.len() + 1,
            final(self).successful_edits@.drop_last() == old(self).successful_edits@,
            final(self).successful_edits@.last().file_path@ == file_path@,
            final(self).successful_edits@.last().find_preview@ == find_preview@,
    {
        let edit = SuccessfulEdit {
            file_path: file_path.to_owned(),
            find_preview: find_preview.to_owned(),
        };
        self.successful_edits.push(edit);
        assert(self.successful_edits@.drop_last() =~= old(self).successful_edits@);
    }

    /// Records a failed edit after those recorded so far: its file, the
    /// start of its find text, why it failed, and the line where a match
    /// may stand, if one was found.
    pub fn add_failed_edit(
        &mut self,
        file_path: &str,
        find_preview: &str,
        reason: &str,
        suggested_line: Option<usize>,
    )
        ensures
            final(self).successful_edits == old(self).successful_edits,
            final(self).failed_edits@.len() == old(self).failed_edits@.len() + 1,
            final(self).failed_edits@.drop_last() == old(self).failed_edits@,
            final(self).failed_edits@.last().file_path@ == file_path@,
            final(self).failed_edits@.last().find_preview@ == find_preview@,
            final(self).failed_edits@.last().reason@ == reason@,
            final(self).failed_edits@.last().suggested_line == suggested_line,
    {
        let edit = FailedEdit {
            file_path: file_path.to_owned(),
            find_preview: find_preview.to_owned(),
            reason: reason.to_owned(),
            suggested_line,
        };
        self.failed_edits.push(edit);
        assert(self.failed_edits@.drop_last() =~= old(self).failed_edits@);
    }

    pub fn has_failures(&self) -> (r: bool)
        ensures
            r == (self.failed_edits@.len() > 0),
    {
        self.failed_edits.len() > 0
    }
}

/// A copy of the list.
pub fn copy_failed_edits(v: &Vec<FailedEdit>) -> (r: Vec<FailedEdit>)
    ensures
        r@ == v@,
{
    let mut r: Vec<FailedEdit> = Vec::new();
    let mut i: usize = 0;
    while i < v.len()
        invariant
            i <= v.len(),
            r@ == v@.take(i as int),
        decreases v.len() - i,
    {
        r.push(v[i].copy());
        i += 1;
        assert(r@ =~= v@.take(i as int));
    }
    assert(v@.take(v.len() as int) == v@);
    r
}

impl SuccessfulEdit {
    /// A copy of the record.
    pub fn copy(&self) -> (r: Self)
        ensures
            r == *self,
    {
        SuccessfulEdit {
            file_path: self.file_path.clone(),
            find_preview: self.find_preview.clone(),
        }
    }
}

impl FailedEdit {
    /// A copy of the record.
    pub fn copy(&self) -> (r: Self)
        ensures
            r == *self,
    {
        FailedEdit {
            file_path: self.file_path.clone(),
            find_preview: self.find_preview.clone(),
            reason: self.reason.clone(),
            suggested_line: self.suggested_line,
        }
    }
}

impl Default for PartialEditState {
    fn default() -> (r: Self)
        ensures
            r.successful_edits@.len() == 0,
            r.failed_edits@.len() == 0,
    {
        PartialEditState::new()
    }
}

/// A point in time: the seconds since the Unix epoch, and the nanoseconds
/// past that second.
#[derive(Debug, Clone, Copy, PartialEq, Eq, Structural)]
pub struct Timestamp {
    pub secs: i64,
    pub nanos: u32,
}

/// `chrono::Utc::now`, read as seconds and nanoseconds since the Unix epoch.
/// Nothing is claimed of the time that comes back.
#[verifier::external_body]
pub(crate) fn current_time() -> Timestamp {
    let t = chrono::Utc::now();
    Timestamp { secs: t.timestamp(), nanos: t.timestamp_subsec_nanos() }
}

/// The record kept of one job.
#[derive(Debug, Clone)]
pub struct JobStatusEntry {
    /// The job's identifier.
    pub id: String,
    pub status: JobStatus,
    /// When the job was first discovered.
    pub created_at: Timestamp,
    /// When the record last changed.
    pub updated_at: Timestamp,
    /// Why the job failed, if it did.
    pub error: Option<String>,
    /// What an edit job achieved when only part of its edits applied.
    pub partial_state: Option<PartialEditState>,
    /// Whether the job has been run, whatever came of it.
    pub ran: bool,
}

impl JobStatusEntry {
    /// The record with the given status, stamped `now`; the stored error
    /// stays only where the new status is `Fail`.
    pub open spec fn with_status(self, status: JobStatus, now: Timestamp) -> Self {
        JobStatusEntry {
            status,
            updated_at: now,
            error: if status == JobStatus::Fail {
                self.error
            } else {
                None
            },
            ..self
        }
    }

    /// The record failed with the message `error`, stamped `now`.
    pub open spec fn failed_with(self, error: String, now: Timestamp) -> Self {
        JobStatusEntry { status: JobStatus::Fail, updated_at: now, error: Some(error), ..self }
    }

    /// The record partially done with `state`, stamped `now`.
    pub open spec fn partial_with(self, state: PartialEditState, now: Timestamp) -> Self {
        JobStatusEntry {
            status: JobStatus::Partial,
            updated_at: now,
            partial_state: Some(state),
            ..self
        }
    }

    /// The record with the run flag set to `ran`, stamped `now`.
    pub open spec fn flagged(self, ran: bool, now: Timestamp) -> Self {
        JobStatusEntry { updated_at: now, ran, ..self }
    }

    /// The record returned to `Created` at `now`: no error, no partial
    /// state, not run.
    pub open spec fn reset(self, now: Timestamp) -> Self {
        JobStatusEntry {
            status: JobStatus::Created,
            updated_at: now,
            error: None,
            partial_state: None,
            ran: false,
            ..self
        }
    }

    /// The record without its partial state.
    pub open spec fn without_partial(self) -> Self {
        JobStatusEntry { partial_state: None, ..self }
    }

    /// The record of the job `id` discovered at `now`.
    pub open spec fn created(id: String, now: Timestamp) -> Self {
        JobStatusEntry {
            id,
            status: JobStatus::Created,
            created_at: now,
            updated_at: now,
            error: None,
            partial_state: None,
            ran: false,
        }
    }

    /// The record of a job discovered at `now`.
    pub fn new_at(id: String, now: Timestamp) -> (r: Self)
        ensures
            r == JobStatusEntry::created(id, now),
    {
        JobStatusEntry {
            id,
            status: JobStatus::Created,
            created_at: now,
            updated_at: now,
            error: None,
            partial_state: None,
            ran: false,
        }
    }

    /// The record of a job discovered at this moment.
    pub fn new(id: String) -> (r: Self)
        ensures
            r == JobStatusEntry::created(id, r.created_at),
    {
        JobStatusEntry::new_at(id, current_time())
    }

    pub fn mark_ran_at(&mut self, now: Timestamp)
        ensures
            *final(self) == old(self).flagged(true, now),
    {
        self.ran = true;
        self.updated_at = now;
    }

    /// Marks the job as run, at this moment.
    pub fn mark_ran(&mut self)
        ensures
            *final(self) == old(self).flagged(true, final(self).updated_at),
    {
        self.mark_ran_at(current_time());
    }

    pub fn clear_ran_at(&mut self, now: Timestamp)
        ensures
            *final(self) == old(self).flagged(false, now),
    {
        self.ran = false;
        self.updated_at = now;
    }

    /// Marks the job as not run, at this moment.
    pub fn clear_ran(&mut self)
        ensures
            *final(self) == old(self).flagged(false, final(self).updated_at),
    {
        self.clear_ran_at(current_time());
    }

    pub fn update_status_at(&mut self, status: JobStatus, now: Timestamp)
        ensures
            *final(self) == old(self).with_status(status, now),
    {
        self.status = status;
        self.updated_at = now;
        if status != JobStatus::Fail {
            self.error = None;
        }
    }

    /// Sets the status, at this moment.
    pub fn update_status(&mut self, status: JobStatus)
        ensures
            *final(self) == old(self).with_status(status, final(self).updated_at),
    {
        self.update_status_at(status, current_time());
    }

    pub fn set_failed_at(&mut self, error: String, now: Timestamp)
        ensures
            *final(self) == old(self).failed_with(error, now),
    {
        self.status = JobStatus::Fail;
        self.updated_at = now;
        self.error = Some(error);
    }

    /// Fails the job with a message, at this moment.
    pub fn set_failed(&mut self, error: String)
        ensures
            *final(self) == old(self).failed_with(error, final(self).updated_at),
    {
        self.set_failed_at(error, current_time());
    }

    pub fn set_partial_at(&mut self, state: PartialEditState, now: Timestamp)
        ensures
            *final(self) == old(self).partial_with(state, now),
    {
        self.status = JobStatus::Partial;
        self.updated_at = now;
        self.partial_state = Some(state);
    }

    /// Marks the job as partially done, at this moment.
    pub fn set_partial(&mut self, state: PartialEditState)
        ensures
            *final(self) == old(self).partial_with(state, final(self).updated_at),
    {
        self.set_partial_at(state, current_time());
    }

    pub fn reset_at(&mut self, now: Timestamp)
        ensures
            *final(self) == old(self).reset(now),
    {
        self.status = JobStatus::Created;
        self.updated_at = now;
        self.error = None;
        self.partial_state = None;
        self.ran = false;
    }

    /// Drops the partial state; the time stamp stays.
    pub fn clear_partial(&mut self)
        ensures
            *final(self) == old(self).without_partial(),
    {
        self.partial_state = None;
    }

    pub fn get_partial_state(&self) -> (r: Option<&PartialEditState>)
        ensures
            r is Some == self.partial_state is Some,
            r matches Some(s) ==> *s == self.partial_state->0,
    {
        self.partial_state.as_ref()
    }
}

} // verus!
