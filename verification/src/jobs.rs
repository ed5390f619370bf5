//! The jobs folder of a project: where it lies, what a call may take, and
//! the cache of the files that were read for the jobs.

use crate::config::LimitsConfig;
use crate::engine::{capped, estimate_call, estimated_tokens, tokens_of};
use crate::error::WorkSplitError;
use crate::file_cache::{slot, CacheStats, FileCache};
use crate::job::{join_path, joined_path};
use crate::text::{
    chars_of, ends_with, has_suffix, lemma_strs_push, pair_views, sort_strings, sorted_texts,
    string_of, strs, subvec,
};
use vstd::prelude::*;

verus! {

/// The file of the system prompt for generating tests.
pub const TEST_PROMPT_FILE: &'static str = "_systemprompt_test.md";

/// The file of the system prompt for generating edits.
pub const EDIT_PROMPT_FILE: &'static str = "_systemprompt_edit.md";

/// The file of the system prompt for verifying edits.
pub const VERIFY_EDIT_PROMPT_FILE: &'static str = "_systemprompt_verify_edit.md";

/// The file of the system prompt for splitting a file.
pub const SPLIT_PROMPT_FILE: &'static str = "_systemprompt_split.md";

/// The jobs folder of a project.
#[derive(Debug)]
pub struct JobsManager {
    pub jobs_dir: String,
    pub project_root: String,
    pub limits: LimitsConfig,
    pub cache: FileCache,
}

/// From how many tokens on a warning is given: four fifths of the limit,
/// rounded down.
pub open spec fn warning_threshold(context_limit: usize) -> nat {
    (context_limit * 8 / 10) as nat
}

/// From how many tokens on a call is refused: nine tenths of the limit,
/// rounded down.
pub open spec fn error_threshold(context_limit: usize) -> nat {
    (context_limit * 9 / 10) as nat
}

impl JobsManager {
    /// The jobs folder of the project at `project_root`: its directory
    /// `jobs`. Nothing is cached yet.
    pub fn new(project_root: String, limits: LimitsConfig) -> (r: Self)
        ensures
            r.jobs_dir@ == joined_path(project_root@, "jobs"@),
            r.project_root == project_root,
            r.limits == limits,
            r.cache.entries().len() == 0,
    {
        let jobs_dir = join_path(project_root.as_str(), "jobs");
        JobsManager { jobs_dir, project_root, limits, cache: FileCache::new() }
    }

    /// The directory of the job files.
    pub fn jobs_dir(&self) -> (r: &String)
        ensures
            *r == self.jobs_dir,
    {
        &self.jobs_dir
    }

    /// Drops all cached files.
    pub fn clear_cache(&mut self)
        ensures
            final(self).cache.entries().len() == 0,
            final(self).jobs_dir == old(self).jobs_dir,
            final(self).project_root == old(self).project_root,
            final(self).limits == old(self).limits,
    {
        self.cache.clear();
    }

    /// Drops the cached file at a path.
    pub fn invalidate_cache(&mut self, path: &str)
        ensures
            ({
                let i = slot(old(self).cache.entries(), path@);
                if i < old(self).cache.entries().len() {
                    final(self).cache.entries() == old(self).cache.entries().remove(i)
                } else {
                    final(self).cache.entries() == old(self).cache.entries()
                }
            }),
            final(self).jobs_dir == old(self).jobs_dir,
            final(self).project_root == old(self).project_root,
            final(self).limits == old(self).limits,
    {
        self.cache.invalidate(path);
    }

    /// How much the cache holds.
    pub fn cache_stats(&self) -> (r: CacheStats)
        ensures
            r.entry_count == self.cache.entries().len(),
            r.total_bytes == crate::file_cache::bytes_held(self.cache.entries()),
            r.total_lines == crate::file_cache::lines_held(self.cache.entries()),
    {
        self.cache.stats()
    }

    /// The tokens that a text is estimated at: a quarter of its bytes.
    pub fn estimate_tokens(content: &str) -> (r: usize)
        ensures
            r == tokens_of(content@),
    {
        content.as_bytes().len() / 4
    }

    /// Estimates the tokens of a call for a job's files, and tells whether
    /// the estimate is over the threshold for a warning and over that for
    /// refusing the call. The estimate is given as the largest number the
    /// machine holds where it is larger.
    pub fn check_token_budget(
        &self,
        system_prompt: &str,
        context_files: &[(String, String)],
        instructions: &str,
        context_limit: usize,
    ) -> (r: (usize, bool, bool))
        ensures
            ({
                let estimate = estimated_tokens(
                    system_prompt@,
                    pair_views(context_files@),
                    instructions@,
                );
                &&& r.0 == capped(estimate)
                &&& r.1 == (estimate > warning_threshold(context_limit))
                &&& r.2 == (estimate > error_threshold(context_limit))
            }),
    {
        let total = estimate_call(system_prompt, context_files, instructions);
        assert(usize::MAX <= 0xffff_ffff_ffff_ffff) by {
            assert(usize::BITS == 32 || usize::BITS == 64);
        }
        let limit: u128 = context_limit as u128;
        let warning: u128 = limit * 8 / 10;
        let error: u128 = limit * 9 / 10;
        let estimated = if total > usize::MAX as u128 {
            usize::MAX
        } else {
            total as usize
        };
        (estimated, total > warning, total > error)
    }

    /// Checks a context file's number of lines against the limit.
    pub fn check_context_size(&self, path: &str, line_count: usize) -> (r: Result<
        (),
        WorkSplitError,
    >)
        ensures
            r is Ok == (line_count <= self.limits.max_context_lines),
            r matches Err(e) ==> e matches WorkSplitError::ContextFileTooLarge { path: p, lines, max }
                && p@ == path@ && lines == line_count && max == self.limits.max_context_lines,
    {
        if line_count > self.limits.max_context_lines {
            Err(
                WorkSplitError::ContextFileTooLarge {
                    path: path.to_owned(),
                    lines: line_count,
                    max: self.limits.max_context_lines,
                },
            )
        } else {
            Ok(())
        }
    }
}

/// The name without the extensions `.md` at its end, however many.
pub open spec fn without_md(name: Seq<char>) -> Seq<char>
    decreases name.len(),
{
    if has_suffix(name, ".md"@) && name.len() >= 3 {
        without_md(name.take(name.len() - 3))
    } else {
        name
    }
}

/// The job that a file of the jobs folder holds, by the file's name: the
/// name without its extension `.md`. A file whose name starts with an
/// underscore belongs to the system and holds no job, nor does a file
/// without the extension.
pub open spec fn job_of_file(name: Seq<char>) -> Option<Seq<char>> {
    if name.len() > 0 && name[0] == '_' {
        None
    } else if has_suffix(name, ".md"@) {
        Some(without_md(name))
    } else {
        None
    }
}

/// The jobs that the files hold, by the files' names, in the order of the
/// files.
pub open spec fn jobs_of_files(names: Seq<Seq<char>>) -> Seq<Seq<char>>
    decreases names.len(),
{
    if names.len() == 0 {
        Seq::empty()
    } else {
        match job_of_file(names.last()) {
            Some(id) => jobs_of_files(names.drop_last()).push(id),
            None => jobs_of_files(names.drop_last()),
        }
    }
}

/// Whether a file of the jobs folder belongs to the system: its name
/// starts with an underscore.
pub fn is_system_file(filename: &str) -> (r: bool)
    ensures
        r == (filename@.len() > 0 && filename@[0] == '_'),
{
    let name = chars_of(filename);
    name.len() > 0 && name[0] == '_'
}

/// Tells the job that a file of the jobs folder holds, by the file's name.
pub fn job_id_of(filename: &str) -> (r: Option<String>)
    ensures
        match r {
            Some(id) => job_of_file(filename@) == Some(id@),
            None => job_of_file(filename@) is None,
        },
{
    let name = chars_of(filename);
    if name.len() > 0 && name[0] == '_' {
        return None;
    }
    let ext = chars_of(".md");
    proof {
        reveal_strlit(".md");
    }
    if !ends_with(&name, &ext) {
        return None;
    }
    let mut end: usize = name.len();
    assert(name@.take(end as int) == name@);
    while end >= 3 && ends_with(&subvec(&name, 0, end), &ext)
        invariant
            end <= name.len(),
            ext@ == ".md"@,
            ext@.len() == 3,
            without_md(name@) == without_md(name@.take(end as int)),
        decreases end,
    {
        assert(name@.subrange(0, end as int) == name@.take(end as int));
        assert(name@.take(end as int).take(end - 3) =~= name@.take(end - 3));
        end -= 3;
    }
    assert(name@.subrange(0, end as int) == name@.take(end as int));
    assert(job_of_file(filename@) == Some(without_md(name@)));
    Some(string_of(&subvec(&name, 0, end)))
}

/// Tells the jobs of the jobs folder from the names of its files, in
/// ascending order.
pub fn discovered_jobs(filenames: &[String]) -> (r: Vec<String>)
    ensures
        strs(r@) == sorted_texts(jobs_of_files(strs(filenames@))),
{
    let mut ids: Vec<String> = Vec::new();
    let mut i: usize = 0;
    assert(strs(ids@) =~= jobs_of_files(strs(filenames@).take(0)));
    while i < filenames.len()
        invariant
            i <= filenames.len(),
            strs(ids@) == jobs_of_files(strs(filenames@).take(i as int)),
        decreases filenames.len() - i,
    {
        assert(strs(filenames@).take(i + 1).drop_last() == strs(filenames@).take(i as int));
        assert(strs(filenames@).take(i + 1).last() == filenames@[i as int]@);
        if let Some(id) = job_id_of(filenames[i].as_str()) {
            proof {
                lemma_strs_push(ids@, id);
            }
            ids.push(id);
        }
        i += 1;
    }
    assert(strs(filenames@).take(filenames.len() as int) == strs(filenames@));
    sort_strings(ids.as_slice())
}

} // verus!
