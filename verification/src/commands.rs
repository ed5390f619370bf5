//! What the commands take and give.

use crate::text::{
    append_str, chars_of, contains, contains_text, has_prefix, lemma_strs_push, lines, lines_of,
    replace_all, replace_all_in, rows, sort_strings, sorted_texts, starts_with, string_of, strs,
    words, words_of,
};
use crate::status::{JobStatus, JobStatusEntry, Timestamp};
use vstd::prelude::*;

verus! {

/// What a run is asked to do.
#[derive(Debug, Clone)]
pub struct RunOptions {
    /// The one job to run; all that wait where there is none.
    pub job_id: Option<String>,
    /// Only tell what would run.
    pub dry_run: bool,
    /// Take up jobs left in an intermediate state.
    pub resume: bool,
    /// The job to reset.
    pub reset: Option<String>,
    pub model: Option<String>,
    pub url: Option<String>,
    pub timeout: Option<u64>,
    pub job_timeout: Option<u64>,
    pub no_stream: bool,
    /// Stop at the first job that fails.
    pub stop_on_fail: bool,
    /// Run the jobs in groups, by their dependencies.
    pub batch: bool,
    /// How many jobs run at once at most; 0 for no limit.
    pub max_concurrent: usize,
    /// Take up jobs that have run already.
    pub rerun: bool,
}

impl Default for RunOptions {
    fn default() -> (r: Self)
        ensures
            r.job_id is None,
            !r.dry_run,
            !r.resume,
            r.reset is None,
            r.model is None,
            r.url is None,
            r.timeout is None,
            r.job_timeout is None,
            !r.no_stream,
            !r.stop_on_fail,
            !r.batch,
            r.max_concurrent == 0,
            !r.rerun,
    {
        RunOptions {
            job_id: None,
            dry_run: false,
            resume: false,
            reset: None,
            model: None,
            url: None,
            timeout: None,
            job_timeout: None,
            no_stream: false,
            stop_on_fail: false,
            batch: false,
            max_concurrent: 0,
            rerun: false,
        }
    }
}

/// What a check of the jobs folder found.
#[derive(Debug, Clone)]
pub struct ValidationResult {
    pub valid: bool,
    pub errors: Vec<String>,
    pub warnings: Vec<String>,
}

/// The jobs that were archived.
#[derive(Debug, Clone)]
pub struct ArchiveResult {
    pub archived_count: usize,
    pub archived_jobs: Vec<String>,
}

/// The archived jobs that were removed.
#[derive(Debug, Clone)]
pub struct CleanupResult {
    pub deleted_count: usize,
    pub deleted_jobs: Vec<String>,
}

/// A message of a chat with the generator.
#[derive(Debug, Clone)]
pub struct ChatMessage {
    pub role: String,
    pub content: String,
}

impl ChatMessage {
    /// A message of the system.
    pub fn system(content: &str) -> (r: Self)
        ensures
            r.role@ == "system"@,
            r.content@ == content@,
    {
        ChatMessage { role: "system".to_owned(), content: content.to_owned() }
    }

    /// A message of the user.
    pub fn user(content: &str) -> (r: Self)
        ensures
            r.role@ == "user"@,
            r.content@ == content@,
    {
        ChatMessage { role: "user".to_owned(), content: content.to_owned() }
    }
}

/// A model made for this tool with a context of 32k: its name starts with
/// `worksplit-` and holds `32k`.
pub open spec fn is_preferred_model(name: Seq<char>) -> bool {
    has_prefix(name, "worksplit-"@) && contains(name, "32k"@)
}

/// The models in the order in which they are offered: the preferred ones
/// first, each part in ascending order.
pub open spec fn models_by_priority(models: Seq<Seq<char>>) -> Seq<Seq<char>> {
    sorted_texts(models.filter(|m: Seq<char>| is_preferred_model(m))) + sorted_texts(
        models.filter(|m: Seq<char>| !is_preferred_model(m)),
    )
}

/// Orders the models as they are offered.
pub fn sort_models_by_priority(models: &[String]) -> (r: Vec<String>)
    ensures
        strs(r@) == models_by_priority(strs(models@)),
{
    let prefix = chars_of("worksplit-");
    let mark = chars_of("32k");
    let ghost all = strs(models@);
    let ghost first = |m: Seq<char>| is_preferred_model(m);
    let ghost second = |m: Seq<char>| !is_preferred_model(m);
    let mut preferred: Vec<String> = Vec::new();
    let mut others: Vec<String> = Vec::new();
    let mut i: usize = 0;
    assert(strs(preferred@) =~= all.take(0).filter(first));
    assert(strs(others@) =~= all.take(0).filter(second));
    while i < models.len()
        invariant
            i <= models.len(),
            all == strs(models@),
            prefix@ == "worksplit-"@,
            mark@ == "32k"@,
            first == (|m: Seq<char>| is_preferred_model(m)),
            second == (|m: Seq<char>| !is_preferred_model(m)),
            strs(preferred@) == all.take(i as int).filter(first),
            strs(others@) == all.take(i as int).filter(second),
        decreases models.len() - i,
    {
        proof {
            reveal(Seq::filter);
            assert(all.take(i + 1).drop_last() =~= all.take(i as int));
            assert(all.take(i + 1).last() == models@[i as int]@);
        }
        let name = chars_of(models[i].as_str());
        let copy = models[i].clone();
        if starts_with(&name, &prefix) && contains_text(&name, &mark) {
            proof {
                lemma_strs_push(preferred@, copy);
            }
            preferred.push(copy);
        } else {
            proof {
                lemma_strs_push(others@, copy);
            }
            others.push(copy);
        }
        i += 1;
    }
    assert(all.take(models.len() as int) == all);
    let mut r = sort_strings(preferred.as_slice());
    let tail = sort_strings(others.as_slice());
    let ghost head = strs(r@);
    let mut k: usize = 0;
    assert(strs(r@) =~= head + strs(tail@).take(0));
    while k < tail.len()
        invariant
            k <= tail.len(),
            strs(r@) == head + strs(tail@).take(k as int),
        decreases tail.len() - k,
    {
        let t = tail[k].clone();
        proof {
            lemma_strs_push(r@, t);
            assert(strs(r@).push(t@) =~= head + strs(tail@).take(k + 1));
        }
        r.push(t);
        k += 1;
    }
    assert(strs(tail@).take(tail.len() as int) == strs(tail@));
    r
}

impl ValidationResult {
    /// A check that has found nothing yet.
    pub fn new() -> (r: Self)
        ensures
            r.valid,
            r.errors@.len() == 0,
            r.warnings@.len() == 0,
    {
        ValidationResult { valid: true, errors: Vec::new(), warnings: Vec::new() }
    }

    /// Enters an error: the folder is not valid.
    pub fn add_error(&mut self, message: String)
        ensures
            !final(self).valid,
            final(self).errors@ == old(self).errors@.push(message),
            final(self).warnings == old(self).warnings,
    {
        self.errors.push(message);
        self.valid = false;
    }

    /// Enters a warning.
    pub fn add_warning(&mut self, message: String)
        ensures
            final(self).valid == old(self).valid,
            final(self).errors == old(self).errors,
            final(self).warnings@ == old(self).warnings@.push(message),
    {
        self.warnings.push(message);
    }
}

/// The seconds of a day.
pub const SECONDS_PER_DAY: i64 = 86400;

/// The time `days` days before `now`; the earliest time that the machine
/// holds where that is later.
pub open spec fn days_before(now: Timestamp, days: u32) -> Timestamp {
    Timestamp {
        secs: if now.secs - SECONDS_PER_DAY * days >= i64::MIN {
            (now.secs - SECONDS_PER_DAY * days) as i64
        } else {
            i64::MIN
        },
        nanos: now.nanos,
    }
}

/// The time so many days before `now`.
pub fn cutoff(now: Timestamp, days: u32) -> (r: Timestamp)
    ensures
        r == days_before(now, days),
{
    let span: i64 = SECONDS_PER_DAY * (days as i64);
    let secs = if now.secs >= i64::MIN + span {
        now.secs - span
    } else {
        i64::MIN
    };
    Timestamp { secs, nanos: now.nanos }
}

/// The first time is earlier than the second.
pub open spec fn earlier(a: Timestamp, b: Timestamp) -> bool {
    a.secs < b.secs || (a.secs == b.secs && a.nanos < b.nanos)
}

pub fn is_earlier(a: Timestamp, b: Timestamp) -> (r: bool)
    ensures
        r == earlier(a, b),
{
    a.secs < b.secs || (a.secs == b.secs && a.nanos < b.nanos)
}

/// The jobs to archive: those that passed and were last updated before the
/// cutoff, in the order of their records.
pub open spec fn to_archive(es: Seq<JobStatusEntry>, before: Timestamp) -> Seq<Seq<char>>
    decreases es.len(),
{
    if es.len() == 0 {
        Seq::empty()
    } else if es.last().status == JobStatus::Pass && earlier(es.last().updated_at, before) {
        to_archive(es.drop_last(), before).push(es.last().id@)
    } else {
        to_archive(es.drop_last(), before)
    }
}

/// The records that the references point to.
pub open spec fn records(refs: Seq<&JobStatusEntry>) -> Seq<JobStatusEntry> {
    Seq::new(refs.len(), |i: int| *refs[i])
}

/// Picks the jobs to archive.
pub fn archivable(entries: &Vec<&JobStatusEntry>, before: Timestamp) -> (r: Vec<String>)
    ensures
        strs(r@) == to_archive(records(entries@), before),
{
    let ghost all = records(entries@);
    let mut r: Vec<String> = Vec::new();
    let mut i: usize = 0;
    assert(strs(r@) =~= to_archive(all.take(0), before));
    while i < entries.len()
        invariant
            i <= entries.len(),
            all == records(entries@),
            strs(r@) == to_archive(all.take(i as int), before),
        decreases entries.len() - i,
    {
        assert(all.take(i + 1).drop_last() =~= all.take(i as int));
        assert(all.take(i + 1).last() == *entries@[i as int]);
        if entries[i].status == JobStatus::Pass && is_earlier(entries[i].updated_at, before) {
            let id = entries[i].id.clone();
            proof {
                lemma_strs_push(r@, id);
            }
            r.push(id);
        }
        i += 1;
    }
    assert(all.take(entries.len() as int) =~= all);
    r
}

/// The whole days between two times; none where the second is not later.
pub open spec fn days_between(from: Timestamp, to: Timestamp) -> int {
    if to.secs - from.secs < 0 {
        0
    } else {
        (to.secs - from.secs) / (SECONDS_PER_DAY as int)
    }
}

/// Counts the whole days from one time to another, by their seconds.
pub fn days_old(from: Timestamp, to: Timestamp) -> (r: u64)
    ensures
        r == days_between(from, to),
{
    if to.secs < from.secs {
        return 0;
    }
    let span: i128 = to.secs as i128 - from.secs as i128;
    (span / (SECONDS_PER_DAY as i128)) as u64
}

/// The names of the models in a listing: the first word of each line, but
/// for the lines that start with `NAME`, which head the listing, and the
/// lines without words.
pub open spec fn listed_models(ls: Seq<Seq<char>>) -> Seq<Seq<char>>
    decreases ls.len(),
{
    if ls.len() == 0 {
        Seq::empty()
    } else if !has_prefix(ls.last(), "NAME"@) && words(ls.last()).len() > 0 {
        listed_models(ls.drop_last()).push(words(ls.last())[0])
    } else {
        listed_models(ls.drop_last())
    }
}

/// Reads the names of the models out of a listing.
pub fn model_names(listing: &str) -> (r: Vec<String>)
    ensures
        strs(r@) == listed_models(lines(listing@)),
{
    let ls = lines_of(&chars_of(listing));
    let head = chars_of("NAME");
    let mut r: Vec<String> = Vec::new();
    let mut i: usize = 0;
    assert(strs(r@) =~= listed_models(rows(ls@).take(0)));
    while i < ls.len()
        invariant
            i <= ls.len(),
            head@ == "NAME"@,
            strs(r@) == listed_models(rows(ls@).take(i as int)),
        decreases ls.len() - i,
    {
        assert(rows(ls@).take(i + 1).drop_last() == rows(ls@).take(i as int));
        assert(rows(ls@).take(i + 1).last() == ls@[i as int]@);
        if !starts_with(&ls[i], &head) {
            let ws = words_of(&ls[i]);
            assert(rows(ws@).len() == ws@.len());
            if ws.len() > 0 {
                assert(rows(ws@)[0] == ws@[0]@);
                let name = string_of(&ws[0]);
                proof {
                    lemma_strs_push(r@, name);
                }
                r.push(name);
            }
        }
        i += 1;
    }
    assert(rows(ls@).take(ls.len() as int) == rows(ls@));
    r
}

/// The configuration of a new project with the model that was chosen in
/// place of the model that the template names.
pub open spec fn configured(template: Seq<char>, model: Seq<char>) -> Seq<char> {
    replace_all(template, "model = \"qwen-32k:latest\""@, "model = \""@ + model + "\""@, 0)
}

/// Writes the configuration of a new project for the model that was
/// chosen.
pub fn config_for_model(template: &str, model: &str) -> (r: String)
    ensures
        r@ == configured(template@, model@),
{
    let mut line: Vec<char> = Vec::new();
    append_str(&mut line, "model = \"");
    append_str(&mut line, model);
    append_str(&mut line, "\"");
    assert(line@ =~= "model = \""@ + model@ + "\""@);
    proof {
        reveal_strlit("model = \"qwen-32k:latest\"");
    }
    string_of(&replace_all_in(&chars_of(template), &chars_of("model = \"qwen-32k:latest\""), &line))
}

/// The status that a filter of the reset command names: `fail` or
/// `partial`; none for any other word.
pub open spec fn filter_status(filter: Seq<char>) -> Option<JobStatus> {
    if filter == "fail"@ {
        Some(JobStatus::Fail)
    } else if filter == "partial"@ {
        Some(JobStatus::Partial)
    } else {
        None
    }
}

/// The jobs that a reset of all jobs takes: those in the status that the
/// filter names, in the order of their records.
pub open spec fn to_reset(es: Seq<JobStatusEntry>, filter: Seq<char>) -> Seq<Seq<char>>
    decreases es.len(),
{
    if es.len() == 0 {
        Seq::empty()
    } else if filter_status(filter) == Some(es.last().status) {
        to_reset(es.drop_last(), filter).push(es.last().id@)
    } else {
        to_reset(es.drop_last(), filter)
    }
}

/// Picks the jobs that a reset of all jobs takes.
pub fn reset_candidates(entries: &Vec<&JobStatusEntry>, filter: &str) -> (r: Vec<String>)
    ensures
        strs(r@) == to_reset(records(entries@), filter@),
{
    let wanted = if crate::text::same_text(filter, "fail") {
        Some(JobStatus::Fail)
    } else if crate::text::same_text(filter, "partial") {
        Some(JobStatus::Partial)
    } else {
        None
    };
    let ghost all = records(entries@);
    let mut r: Vec<String> = Vec::new();
    let mut i: usize = 0;
    assert(strs(r@) =~= to_reset(all.take(0), filter@));
    while i < entries.len()
        invariant
            i <= entries.len(),
            all == records(entries@),
            wanted == filter_status(filter@),
            strs(r@) == to_reset(all.take(i as int), filter@),
        decreases entries.len() - i,
    {
        assert(all.take(i + 1).drop_last() =~= all.take(i as int));
        assert(all.take(i + 1).last() == *entries@[i as int]);
        let hit = match wanted {
            Some(status) => entries[i].status == status,
            None => false,
        };
        if hit {
            let id = entries[i].id.clone();
            proof {
                lemma_strs_push(r@, id);
            }
            r.push(id);
        }
        i += 1;
    }
    assert(all.take(entries.len() as int) =~= all);
    r
}

/// The name names the model: it is the model's name, or the model's name,
/// a colon and a tag.
pub open spec fn names_model(name: Seq<char>, model: Seq<char>) -> bool {
    name == model || has_prefix(name, model + ":"@)
}

/// One of the names names the model.
pub open spec fn model_listed(names: Seq<Seq<char>>, model: Seq<char>) -> bool {
    exists|i: int| 0 <= i < names.len() && names_model(#[trigger] names[i], model)
}

/// Whether the model is among those that the generator has.
pub fn has_model(names: &[String], model: &str) -> (r: bool)
    ensures
        r == model_listed(strs(names@), model@),
{
    let plain = chars_of(model);
    let mut tagged = chars_of(model);
    append_str(&mut tagged, ":");
    let mut i: usize = 0;
    while i < names.len()
        invariant
            i <= names.len(),
            plain@ == model@,
            tagged@ == model@ + ":"@,
            forall|k: int| 0 <= k < i ==> !names_model(#[trigger] strs(names@)[k], model@),
        decreases names.len() - i,
    {
        let name = chars_of(names[i].as_str());
        if crate::text::vec_eq(&name, &plain) || starts_with(&name, &tagged) {
            assert(names_model(strs(names@)[i as int], model@));
            return true;
        }
        i += 1;
    }
    false
}

/// The first `limit` lines of a text, and how many more it has.
pub fn head_lines(text: &str, limit: usize) -> (r: (Vec<String>, usize))
    ensures
        strs(r.0@) == (if lines(text@).len() <= limit {
            lines(text@)
        } else {
            lines(text@).take(limit as int)
        }),
        r.1 == (if lines(text@).len() <= limit {
            0
        } else {
            lines(text@).len() - limit
        }),
{
    let ls = lines_of(&chars_of(text));
    assert(rows(ls@).len() == ls@.len());
    let shown: usize = if ls.len() <= limit {
        ls.len()
    } else {
        limit
    };
    let mut out: Vec<String> = Vec::new();
    let mut i: usize = 0;
    assert(strs(out@) =~= rows(ls@).take(0));
    while i < shown
        invariant
            i <= shown <= ls.len(),
            strs(out@) == rows(ls@).take(i as int),
        decreases shown - i,
    {
        let line = string_of(&ls[i]);
        proof {
            lemma_strs_push(out@, line);
            assert(strs(out@).push(line@) =~= rows(ls@).take(i + 1));
        }
        out.push(line);
        i += 1;
    }
    assert(rows(ls@).take(ls.len() as int) == rows(ls@));
    (out, ls.len() - shown)
}

} // verus!
