//! The dependency graph of a set of jobs, inferred from the files they
//! declare, and the groups in which the jobs may run.
//!
//! A job depends on another where a file it declares as input is a file the
//! other declares as output.

use crate::job::{clone_strings, normal_path, normalize_path, JobMetadata, OutputMode};
use crate::text::{
    chars_of, is_lex_less, lemma_rows_push, lemma_strs_push, lex_less, rows, same_text,
    string_of, strs, vec_eq,
};
use crate::seqs::{lemma_filter_members, lemma_filter_split};
use vstd::prelude::*;

verus! {

/// The dependencies among jobs. Of several entries with one key, the last
/// counts.
#[derive(Debug)]
pub struct DependencyGraph {
    /// For a job, the jobs it depends on.
    pub dependencies: Vec<(String, Vec<String>)>,
    /// For an output path, the job that produces it.
    pub output_producers: Vec<(String, String)>,
}

/// What the last entry for `job` lists; nothing where there is no entry.
pub open spec fn deps_in(entries: Seq<(String, Vec<String>)>, job: Seq<char>) -> Seq<Seq<char>>
    decreases entries.len(),
{
    if entries.len() == 0 {
        Seq::empty()
    } else if entries.last().0@ == job {
        strs(entries.last().1@)
    } else {
        deps_in(entries.drop_last(), job)
    }
}

/// The job of the last entry for `path`.
pub open spec fn producer_in(entries: Seq<(Seq<char>, Seq<char>)>, path: Seq<char>) -> Option<
    Seq<char>,
>
    decreases entries.len(),
{
    if entries.len() == 0 {
        None
    } else if entries.last().0 == path {
        Some(entries.last().1)
    } else {
        producer_in(entries.drop_last(), path)
    }
}

/// The views of the entries of a producer table.
pub open spec fn producer_views(entries: Seq<(String, String)>) -> Seq<(Seq<char>, Seq<char>)> {
    Seq::new(entries.len(), |i: int| (entries[i].0@, entries[i].1@))
}

/// The files that a job declares as output, each with the job: its output
/// path, then its output files, each path in the form in which paths are
/// compared.
pub open spec fn declared_outputs(id: Seq<char>, m: JobMetadata) -> Seq<(Seq<char>, Seq<char>)> {
    let files = match m.output_files {
        Some(fs) => strs(fs@),
        None => Seq::empty(),
    };
    seq![(normal_path(m.default_output()), id)] + Seq::new(
        files.len(),
        |i: int| (normal_path(files[i]), id),
    )
}

/// The files that a job names as input: its context files and, for an
/// edit job, its target files.
pub open spec fn named_inputs(m: JobMetadata) -> Seq<Seq<char>> {
    strs(m.context_files@) + (if m.mode == OutputMode::Edit && m.target_files is Some {
        strs(m.target_files->0@)
    } else {
        Seq::empty()
    })
}

/// The files that a job declares as input, each path in the form in which
/// paths are compared.
pub open spec fn declared_inputs(m: JobMetadata) -> Seq<Seq<char>> {
    Seq::new(named_inputs(m).len(), |i: int| normal_path(named_inputs(m)[i]))
}

/// The producer table of the jobs: their declared outputs, job by job.
pub open spec fn registered(jobs: Seq<(String, JobMetadata)>) -> Seq<(Seq<char>, Seq<char>)>
    decreases jobs.len(),
{
    if jobs.len() == 0 {
        Seq::empty()
    } else {
        registered(jobs.drop_last()) + declared_outputs(jobs.last().0@, jobs.last().1)
    }
}

/// The producers of the given inputs, but for the job `id` itself, each
/// once, in the order in which the inputs name them.
pub open spec fn found_deps(
    inputs: Seq<Seq<char>>,
    table: Seq<(Seq<char>, Seq<char>)>,
    id: Seq<char>,
) -> Seq<Seq<char>>
    decreases inputs.len(),
{
    if inputs.len() == 0 {
        Seq::empty()
    } else {
        let before = found_deps(inputs.drop_last(), table, id);
        match producer_in(table, inputs.last()) {
            Some(p) => if p != id && !before.contains(p) {
                before.push(p)
            } else {
                before
            },
            None => before,
        }
    }
}

/// No job is found twice, and the job itself is not found.
pub proof fn lemma_found_deps_distinct(
    inputs: Seq<Seq<char>>,
    table: Seq<(Seq<char>, Seq<char>)>,
    id: Seq<char>,
)
    ensures
        found_deps(inputs, table, id).no_duplicates(),
        !found_deps(inputs, table, id).contains(id),
    decreases inputs.len(),
{
    if inputs.len() > 0 {
        lemma_found_deps_distinct(inputs.drop_last(), table, id);
        let before = found_deps(inputs.drop_last(), table, id);
        match producer_in(table, inputs.last()) {
            Some(p) => {
                if p != id && !before.contains(p) {
                    let after = before.push(p);
                    assert forall|i: int, j: int|
                        0 <= i < after.len() && 0 <= j < after.len() && i != j implies after[i]
                        != after[j] by {
                        if i < before.len() && j < before.len() {
                        } else if i < before.len() {
                            assert(before.contains(before[i]));
                        } else {
                            assert(before.contains(before[j]));
                        }
                    }
                    assert forall|i: int| 0 <= i < after.len() implies after[i] != id by {
                        if i < before.len() {
                            assert(before.contains(before[i]));
                        }
                    }
                }
            },
            None => {},
        }
    }
}

/// Where no entry lists a job twice, nor the job it is for, the same
/// holds of what is listed for any job.
pub proof fn lemma_deps_distinct(entries: Seq<(String, Vec<String>)>, job: Seq<char>)
    requires
        forall|i: int|
            0 <= i < entries.len() ==> (#[trigger] strs(entries[i].1@)).no_duplicates() && !strs(
                entries[i].1@,
            ).contains(entries[i].0@),
    ensures
        deps_in(entries, job).no_duplicates(),
        !deps_in(entries, job).contains(job),
    decreases entries.len(),
{
    if entries.len() > 0 {
        if entries.last().0@ == job {
            assert(strs(entries[entries.len() - 1].1@).no_duplicates());
        } else {
            assert forall|i: int| 0 <= i < entries.drop_last().len() implies (#[trigger] strs(
                entries.drop_last()[i].1@,
            )).no_duplicates() && !strs(entries.drop_last()[i].1@).contains(
                entries.drop_last()[i].0@,
            ) by {
                assert(entries.drop_last()[i] == entries[i]);
            }
            lemma_deps_distinct(entries.drop_last(), job);
        }
    }
}

impl DependencyGraph {
    /// The graph stands for a set of dependencies for each job: no entry
    /// lists a job twice, and none lists the job it is for.
    pub open spec fn wf(&self) -> bool {
        forall|i: int|
            0 <= i < self.dependencies@.len() ==> (#[trigger] strs(
                self.dependencies@[i].1@,
            )).no_duplicates() && !strs(self.dependencies@[i].1@).contains(
                self.dependencies@[i].0@,
            )
    }

    /// The jobs that `job` depends on.
    pub open spec fn deps(&self, job: Seq<char>) -> Seq<Seq<char>> {
        deps_in(self.dependencies@, job)
    }

    /// The job that produces `path`.
    pub open spec fn producer(&self, path: Seq<char>) -> Option<Seq<char>> {
        producer_in(producer_views(self.output_producers@), path)
    }

    /// A dependency of `job` is among `remaining`.
    pub open spec fn blocked(&self, job: Seq<char>, remaining: Seq<Seq<char>>) -> bool {
        exists|d: Seq<char>| #[trigger] self.deps(job).contains(d) && remaining.contains(d)
    }

    /// The jobs of `remaining` that wait for another of them.
    pub open spec fn waiting(&self, remaining: Seq<Seq<char>>) -> Seq<Seq<char>> {
        remaining.filter(|j: Seq<char>| self.blocked(j, remaining))
    }

    /// The jobs of `remaining` that wait for none of them.
    pub open spec fn runnable(&self, remaining: Seq<Seq<char>>) -> Seq<Seq<char>> {
        remaining.filter(|j: Seq<char>| !self.blocked(j, remaining))
    }

    /// The groups in which the jobs of `remaining` run: first those that
    /// wait for none of the others, then the groups of the rest. Where
    /// every job waits for another, which a cycle causes, all of them form
    /// one last group.
    pub open spec fn groups_from(&self, remaining: Seq<Seq<char>>) -> Seq<Seq<Seq<char>>>
        decreases remaining.len(),
    {
        if remaining.len() == 0 {
            Seq::empty()
        } else if self.runnable(remaining).len() == 0 {
            seq![remaining]
        } else {
            proof {
                lemma_filter_split(
                    remaining,
                    |j: Seq<char>| self.blocked(j, remaining),
                    |j: Seq<char>| !self.blocked(j, remaining),
                );
            }
            seq![self.runnable(remaining)] + self.groups_from(self.waiting(remaining))
        }
    }

    /// The groups in which the ready jobs run, each group in ascending
    /// order of its jobs' identifiers.
    pub open spec fn groups(&self, ready: Seq<Seq<char>>) -> Seq<Seq<Seq<char>>> {
        self.groups_from(sorted_ids(ready))
    }

    /// A graph without jobs.
    pub fn new() -> (r: Self)
        ensures
            r.wf(),
            r.dependencies@.len() == 0,
            r.output_producers@.len() == 0,
    {
        DependencyGraph { dependencies: Vec::new(), output_producers: Vec::new() }
    }

    /// The graph of the given jobs. Every job's declared outputs are
    /// entered into the producer table, in the order of the jobs; then each
    /// job gets the producers of its declared inputs as dependencies,
    /// itself left out.
    pub fn build(jobs: &[(String, JobMetadata)]) -> (g: Self)
        ensures
            g.wf(),
            producer_views(g.output_producers@) == registered(jobs@),
            g.dependencies@.len() == jobs@.len(),
            forall|i: int|
                0 <= i < jobs@.len() ==> (#[trigger] g.dependencies@[i]).0@ == jobs@[i].0@ && strs(
                    g.dependencies@[i].1@,
                ) == found_deps(declared_inputs(jobs@[i].1), registered(jobs@), jobs@[i].0@),
    {
        let mut g = DependencyGraph::new();
        let mut i: usize = 0;
        assert(producer_views(g.output_producers@) =~= registered(jobs@.take(0)));
        while i < jobs.len()
            invariant
                i <= jobs.len(),
                g.dependencies@.len() == 0,
                producer_views(g.output_producers@) == registered(jobs@.take(i as int)),
            decreases jobs.len() - i,
        {
            let ghost before = producer_views(g.output_producers@);
            let ghost id = jobs@[i as int].0@;
            let ghost m = jobs@[i as int].1;
            let ghost outs = declared_outputs(id, m);
            assert(jobs@.take(i + 1).drop_last() == jobs@.take(i as int));
            assert(jobs@.take(i + 1).last() == jobs@[i as int]);
            g.output_producers.push(
                (normalize_path(jobs[i].1.output_path().as_str()), jobs[i].0.clone()),
            );
            assert(producer_views(g.output_producers@) =~= before + outs.take(1));
            if let Some(files) = &jobs[i].1.output_files {
                let mut k: usize = 0;
                while k < files.len()
                    invariant
                        k <= files.len(),
                        i < jobs.len(),
                        g.dependencies@.len() == 0,
                        jobs@[i as int].1.output_files == Some(*files),
                        id == jobs@[i as int].0@,
                        outs == declared_outputs(id, jobs@[i as int].1),
                        producer_views(g.output_producers@) == before + outs.take(k + 1),
                    decreases files.len() - k,
                {
                    let ghost table = producer_views(g.output_producers@);
                    g.output_producers.push((normalize_path(files[k].as_str()), jobs[i].0.clone()));
                    assert(strs(files@)[k as int] == files@[k as int]@);
                    assert(outs.len() == files@.len() + 1);
                    assert(outs[k + 1] == (normal_path(files@[k as int]@), id));
                    assert(producer_views(g.output_producers@) =~= table.push(outs[k + 1]));
                    assert(outs.take(k + 2) =~= outs.take(k + 1).push(outs[k + 1]));
                    assert(producer_views(g.output_producers@) =~= before + outs.take(k + 2));
                    k += 1;
                }
                assert(outs.take(files.len() + 1) =~= outs);
            } else {
                assert(outs.take(1) =~= outs);
            }
            i += 1;
        }
        assert(jobs@.take(jobs.len() as int) == jobs@);
        let mut j: usize = 0;
        while j < jobs.len()
            invariant
                j <= jobs.len(),
                producer_views(g.output_producers@) == registered(jobs@),
                g.dependencies@.len() == j,
                forall|i: int|
                    0 <= i < j ==> (#[trigger] g.dependencies@[i]).0@ == jobs@[i].0@ && strs(
                        g.dependencies@[i].1@,
                    ) == found_deps(declared_inputs(jobs@[i].1), registered(jobs@), jobs@[i].0@),
            decreases jobs.len() - j,
        {
            let inputs = inputs_of(&jobs[j].1);
            let deps = g.producers_of(&inputs, jobs[j].0.as_str());
            g.dependencies.push((jobs[j].0.clone(), deps));
            j += 1;
        }
        proof {
            assert forall|i: int| 0 <= i < g.dependencies@.len() implies (#[trigger] strs(
                g.dependencies@[i].1@,
            )).no_duplicates() && !strs(g.dependencies@[i].1@).contains(g.dependencies@[i].0@) by {
                lemma_found_deps_distinct(
                    declared_inputs(jobs@[i].1),
                    registered(jobs@),
                    jobs@[i].0@,
                );
            }
        }
        g
    }

    /// The producers of the given inputs, but for the job `id` itself.
    fn producers_of(&self, inputs: &Vec<String>, id: &str) -> (r: Vec<String>)
        ensures
            strs(r@) == found_deps(strs(inputs@), producer_views(self.output_producers@), id@),
    {
        let ghost table = producer_views(self.output_producers@);
        let mut r: Vec<String> = Vec::new();
        let mut k: usize = 0;
        assert(strs(r@) =~= found_deps(strs(inputs@).take(0), table, id@));
        while k < inputs.len()
            invariant
                k <= inputs.len(),
                table == producer_views(self.output_producers@),
                strs(r@) == found_deps(strs(inputs@).take(k as int), table, id@),
            decreases inputs.len() - k,
        {
            assert(strs(inputs@).take(k + 1).drop_last() == strs(inputs@).take(k as int));
            assert(strs(inputs@).take(k + 1).last() == inputs@[k as int]@);
            if let Some(p) = self.producer_of(inputs[k].as_str()) {
                if !same_text(p.as_str(), id) && !holds(&r, p.as_str()) {
                    let owned = p.clone();
                    proof {
                        lemma_strs_push(r@, owned);
                    }
                    r.push(owned);
                }
            }
            k += 1;
        }
        assert(strs(inputs@).take(inputs.len() as int) == strs(inputs@));
        r
    }

    fn lookup(&self, job: &str) -> (r: Option<&Vec<String>>)
        ensures
            match r {
                Some(v) => strs(v@) == self.deps(job@),
                None => self.deps(job@).len() == 0,
            },
    {
        let mut i: usize = self.dependencies.len();
        assert(self.dependencies@.take(i as int) == self.dependencies@);
        while i > 0
            invariant
                i <= self.dependencies.len(),
                self.deps(job@) == deps_in(self.dependencies@.take(i as int), job@),
            decreases i,
        {
            i -= 1;
            assert(self.dependencies@.take(i + 1).drop_last() == self.dependencies@.take(
                i as int,
            ));
            if same_text(self.dependencies[i].0.as_str(), job) {
                return Some(&self.dependencies[i].1);
            }
        }
        None
    }

    fn producer_of(&self, path: &str) -> (r: Option<&String>)
        ensures
            match r {
                Some(p) => self.producer(path@) == Some(p@),
                None => self.producer(path@) is None,
            },
    {
        let mut i: usize = self.output_producers.len();
        let ghost table = producer_views(self.output_producers@);
        assert(table.take(i as int) == table);
        while i > 0
            invariant
                i <= self.output_producers.len(),
                table == producer_views(self.output_producers@),
                self.producer(path@) == producer_in(table.take(i as int), path@),
            decreases i,
        {
            i -= 1;
            assert(table.take(i + 1).drop_last() == table.take(i as int));
            if same_text(self.output_producers[i].0.as_str(), path) {
                return Some(&self.output_producers[i].1);
            }
        }
        None
    }

    /// Whether `job_a` depends on `job_b`.
    pub fn depends_on(&self, job_a: &str, job_b: &str) -> (r: bool)
        ensures
            r == self.deps(job_a@).contains(job_b@),
    {
        match self.lookup(job_a) {
            Some(v) => holds(v, job_b),
            None => false,
        }
    }

    /// The jobs that `job_id` depends on: each once, and never the job
    /// itself, in a graph that was built.
    pub fn get_dependencies(&self, job_id: &str) -> (r: Vec<String>)
        ensures
            strs(r@) == self.deps(job_id@),
            self.wf() ==> strs(r@).no_duplicates() && !strs(r@).contains(job_id@),
    {
        proof {
            if self.wf() {
                lemma_deps_distinct(self.dependencies@, job_id@);
            }
        }
        match self.lookup(job_id) {
            Some(v) => clone_strings(v),
            None => {
                let r: Vec<String> = Vec::new();
                assert(strs(r@) =~= self.deps(job_id@));
                r
            },
        }
    }

    fn is_blocked(&self, job: &Vec<char>, remaining: &Vec<Vec<char>>) -> (r: bool)
        ensures
            r == self.blocked(job@, rows(remaining@)),
    {
        let id = string_of(job);
        match self.lookup(id.as_str()) {
            None => false,
            Some(v) => {
                let mut i: usize = 0;
                while i < v.len()
                    invariant
                        i <= v.len(),
                        strs(v@) == self.deps(job@),
                        forall|j: int| 0 <= j < i ==> !rows(remaining@).contains(strs(v@)[j]),
                    decreases v.len() - i,
                {
                    let d = chars_of(v[i].as_str());
                    if holds_row(remaining, &d) {
                        assert(self.deps(job@).contains(strs(v@)[i as int]));
                        return true;
                    }
                    i += 1;
                }
                false
            },
        }
    }

    /// The groups in which the ready jobs run, in order: no job starts
    /// before every job of the groups before its own has ended. A job is put
    /// into the first group at which none of its dependencies among the
    /// ready jobs is still to come; a dependency that is not ready was done
    /// before and holds nothing up. Where only jobs remain that wait for
    /// each other, they form one last group. Each group is in ascending
    /// order of its jobs' identifiers, and a job named twice counts once.
    pub fn execution_groups(&self, ready_jobs: &[String]) -> (r: Vec<Vec<String>>)
        ensures
            group_views(r@) == self.groups(strs(ready_jobs@)),
            forall|k: int|
                0 <= k < r@.len() ==> (#[trigger] group_views(r@)[k]).len() > 0 && ascending(
                    group_views(r@)[k],
                ),
    {
        let r = self.ordered_groups(ready_jobs);
        proof {
            assert forall|k: int| 0 <= k < r@.len() implies (#[trigger] group_views(r@)[k]).len()
                > 0 && ascending(group_views(r@)[k]) by {
                lemma_groups_ascending(*self, strs(ready_jobs@), k);
            }
        }
        r
    }

    fn ordered_groups(&self, ready_jobs: &[String]) -> (r: Vec<Vec<String>>)
        ensures
            group_views(r@) == self.groups(strs(ready_jobs@)),
    {
        let mut remaining = sort_ids(ready_jobs);
        let mut out: Vec<Vec<String>> = Vec::new();
        assert(group_views(out@) =~= Seq::<Seq<Seq<char>>>::empty());
        while remaining.len() > 0
            invariant
                self.groups(strs(ready_jobs@)) == group_views(out@) + self.groups_from(
                    rows(remaining@),
                ),
            decreases remaining.len(),
        {
            let ghost rem = rows(remaining@);
            let ghost before = group_views(out@);
            let ghost wait = |j: Seq<char>| self.blocked(j, rem);
            let ghost run = |j: Seq<char>| !self.blocked(j, rem);
            let mut runnable: Vec<String> = Vec::new();
            let mut rest: Vec<Vec<char>> = Vec::new();
            let mut i: usize = 0;
            assert(strs(runnable@) =~= rem.take(0).filter(run));
            assert(rows(rest@) =~= rem.take(0).filter(wait));
            while i < remaining.len()
                invariant
                    i <= remaining.len(),
                    rem == rows(remaining@),
                    wait == (|j: Seq<char>| self.blocked(j, rem)),
                    run == (|j: Seq<char>| !self.blocked(j, rem)),
                    strs(runnable@) == rem.take(i as int).filter(run),
                    rows(rest@) == rem.take(i as int).filter(wait),
                decreases remaining.len() - i,
            {
                proof {
                    reveal(Seq::filter);
                    assert(rem.take(i + 1).drop_last() =~= rem.take(i as int));
                    assert(rem.take(i + 1).last() == remaining@[i as int]@);
                }
                if self.is_blocked(&remaining[i], &remaining) {
                    let job = crate::text::subvec(&remaining[i], 0, remaining[i].len());
                    proof {
                        assert(job@ == remaining@[i as int]@);
                        lemma_rows_push(rest@, job);
                    }
                    rest.push(job);
                } else {
                    let job = string_of(&remaining[i]);
                    proof {
                        lemma_strs_push(runnable@, job);
                    }
                    runnable.push(job);
                }
                i += 1;
            }
            assert(rem.take(remaining.len() as int) == rem);
            proof {
                lemma_filter_split(rem, wait, run);
            }
            if runnable.len() == 0 {
                let all = strings_of(&remaining);
                proof {
                    lemma_groups_push(out@, all);
                    assert(before.push(rem) =~= before + seq![rem]);
                }
                out.push(all);
                return out;
            }
            proof {
                lemma_groups_push(out@, runnable);
                assert(before.push(strs(runnable@)) + self.groups_from(rows(rest@)) =~= before
                    + (seq![strs(runnable@)] + self.groups_from(rows(rest@))));
            }
            out.push(runnable);
            remaining = rest;
        }
        assert(group_views(out@) + Seq::<Seq<Seq<char>>>::empty() =~= group_views(out@));
        out
    }
}

/// The views of a sequence of groups.
pub open spec fn group_views(gs: Seq<Vec<String>>) -> Seq<Seq<Seq<char>>> {
    Seq::new(gs.len(), |i: int| strs(gs[i]@))
}

proof fn lemma_groups_push(gs: Seq<Vec<String>>, g: Vec<String>)
    ensures
        group_views(gs.push(g)) == group_views(gs).push(strs(g@)),
{
    assert(group_views(gs.push(g)) =~= group_views(gs).push(strs(g@)));
}

/// The files that a job names as input.
fn inputs_named(m: &JobMetadata) -> (r: Vec<String>)
    ensures
        strs(r@) == named_inputs(*m),
{
    let mut r = clone_strings(&m.context_files);
    if m.mode == OutputMode::Edit {
        if let Some(files) = &m.target_files {
            let mut k: usize = 0;
            while k < files.len()
                invariant
                    k <= files.len(),
                    strs(r@) == strs(m.context_files@) + strs(files@).take(k as int),
                decreases files.len() - k,
            {
                let f = files[k].clone();
                proof {
                    lemma_strs_push(r@, f);
                    assert(strs(r@).push(f@) =~= strs(m.context_files@) + strs(files@).take(
                        k + 1,
                    ));
                }
                r.push(f);
                k += 1;
            }
            assert(strs(files@).take(files.len() as int) == strs(files@));
            return r;
        }
    }
    assert(strs(r@) + Seq::<Seq<char>>::empty() =~= strs(r@));
    r
}

/// The files that a job declares as input.
fn inputs_of(m: &JobMetadata) -> (r: Vec<String>)
    ensures
        strs(r@) == declared_inputs(*m),
{
    let named = inputs_named(m);
    let mut r: Vec<String> = Vec::new();
    let mut k: usize = 0;
    assert(strs(r@) =~= declared_inputs(*m).take(0));
    while k < named.len()
        invariant
            k <= named.len(),
            strs(named@) == named_inputs(*m),
            strs(r@) == declared_inputs(*m).take(k as int),
        decreases named.len() - k,
    {
        let f = normalize_path(named[k].as_str());
        proof {
            assert(strs(named@)[k as int] == named@[k as int]@);
            lemma_strs_push(r@, f);
            assert(strs(r@).push(f@) =~= declared_inputs(*m).take(k + 1));
        }
        r.push(f);
        k += 1;
    }
    assert(declared_inputs(*m).take(named.len() as int) =~= declared_inputs(*m));
    r
}

fn holds(v: &Vec<String>, x: &str) -> (r: bool)
    ensures
        r == strs(v@).contains(x@),
{
    let mut i: usize = 0;
    while i < v.len()
        invariant
            i <= v.len(),
            forall|j: int| 0 <= j < i ==> strs(v@)[j] != x@,
        decreases v.len() - i,
    {
        if same_text(v[i].as_str(), x) {
            assert(strs(v@)[i as int] == x@);
            return true;
        }
        i += 1;
    }
    false
}

fn holds_row(v: &Vec<Vec<char>>, x: &Vec<char>) -> (r: bool)
    ensures
        r == rows(v@).contains(x@),
{
    let mut i: usize = 0;
    while i < v.len()
        invariant
            i <= v.len(),
            forall|j: int| 0 <= j < i ==> rows(v@)[j] != x@,
        decreases v.len() - i,
    {
        if vec_eq(&v[i], x) {
            assert(rows(v@)[i as int] == x@);
            return true;
        }
        i += 1;
    }
    false
}

fn strings_of(v: &Vec<Vec<char>>) -> (r: Vec<String>)
    ensures
        strs(r@) == rows(v@),
{
    let mut r: Vec<String> = Vec::new();
    let mut i: usize = 0;
    assert(strs(r@) =~= rows(v@).take(0));
    while i < v.len()
        invariant
            i <= v.len(),
            strs(r@) == rows(v@).take(i as int),
        decreases v.len() - i,
    {
        let s = string_of(&v[i]);
        proof {
            lemma_strs_push(r@, s);
            assert(strs(r@).push(s@) =~= rows(v@).take(i + 1));
        }
        r.push(s);
        i += 1;
    }
    assert(rows(v@).take(v.len() as int) == rows(v@));
    r
}

/// The ascending sequence `s` with `x` put in its place; `s` itself where
/// it holds `x` already.
pub open spec fn with_id(s: Seq<Seq<char>>, x: Seq<char>) -> Seq<Seq<char>>
    decreases s.len(),
{
    if s.len() == 0 {
        seq![x]
    } else if s[0] == x {
        s
    } else if lex_less(x, s[0]) {
        seq![x] + s
    } else {
        seq![s[0]] + with_id(s.drop_first(), x)
    }
}

/// The identifiers in ascending order, each once.
pub open spec fn sorted_ids(s: Seq<Seq<char>>) -> Seq<Seq<char>>
    decreases s.len(),
{
    if s.len() == 0 {
        Seq::empty()
    } else {
        with_id(sorted_ids(s.drop_last()), s.last())
    }
}

fn insert_id(v: &mut Vec<Vec<char>>, x: Vec<char>)
    ensures
        rows(final(v)@) == with_id(rows(old(v)@), x@),
{
    let ghost all = rows(v@);
    let mut p: usize = 0;
    assert(all.skip(0) == all);
    assert(all.take(0) + with_id(all, x@) =~= with_id(all, x@));
    while p < v.len()
        invariant
            p <= v.len(),
            v@ == old(v)@,
            all == rows(v@),
            with_id(all, x@) == all.take(p as int) + with_id(all.skip(p as int), x@),
        decreases v.len() - p,
    {
        let ghost tail = all.skip(p as int);
        assert(tail[0] == v@[p as int]@);
        assert(tail.drop_first() == all.skip(p + 1));
        if vec_eq(&v[p], &x) {
            assert(all.take(p as int) + tail =~= all);
            return ;
        }
        if is_lex_less(&x, &v[p]) {
            v.insert(p, x);
            assert(rows(v@) =~= all.take(p as int) + (seq![x@] + tail));
            return ;
        }
        assert(all.take(p as int) + (seq![tail[0]] + with_id(all.skip(p + 1), x@)) =~= all.take(
            p + 1,
        ) + with_id(all.skip(p + 1), x@));
        p += 1;
    }
    assert(all.skip(v.len() as int) =~= Seq::<Seq<char>>::empty());
    v.push(x);
    assert(rows(v@) =~= all.take(all.len() as int) + seq![x@]);
}

/// The identifiers in ascending order, each once.
pub fn sort_ids(ids: &[String]) -> (r: Vec<Vec<char>>)
    ensures
        rows(r@) == sorted_ids(strs(ids@)),
{
    let mut r: Vec<Vec<char>> = Vec::new();
    let mut i: usize = 0;
    assert(rows(r@) =~= sorted_ids(strs(ids@).take(0)));
    while i < ids.len()
        invariant
            i <= ids.len(),
            rows(r@) == sorted_ids(strs(ids@).take(i as int)),
        decreases ids.len() - i,
    {
        assert(strs(ids@).take(i + 1).drop_last() == strs(ids@).take(i as int));
        assert(strs(ids@).take(i + 1).last() == ids@[i as int]@);
        insert_id(&mut r, chars_of(ids[i].as_str()));
        i += 1;
    }
    assert(strs(ids@).take(ids.len() as int) == strs(ids@));
    r
}

/// The index of the first group that holds `job`; the number of groups
/// where none does.
pub open spec fn group_index(groups: Seq<Seq<Seq<char>>>, job: Seq<char>) -> int
    decreases groups.len(),
{
    if groups.len() == 0 {
        0
    } else if groups[0].contains(job) {
        0
    } else {
        1 + group_index(groups.drop_first(), job)
    }
}

impl DependencyGraph {
    /// `rank` falls along every dependency between two of the given jobs.
    pub open spec fn ranked(&self, jobs: Seq<Seq<char>>, rank: spec_fn(Seq<char>) -> nat) -> bool {
        forall|j: Seq<char>, d: Seq<char>|
            jobs.contains(j) && jobs.contains(d) && #[trigger] self.deps(j).contains(d) ==> rank(d)
                < rank(j)
    }

    /// The dependencies among the given jobs form no cycle: the jobs can be
    /// ranked so that each ranks above the jobs it depends on.
    pub open spec fn acyclic(&self, jobs: Seq<Seq<char>>) -> bool {
        exists|rank: spec_fn(Seq<char>) -> nat| self.ranked(jobs, rank)
    }
}

/// A sequence that is not empty holds an item of least rank.
proof fn lemma_least_rank(s: Seq<Seq<char>>, rank: spec_fn(Seq<char>) -> nat) -> (m: Seq<char>)
    requires
        s.len() > 0,
    ensures
        s.contains(m),
        forall|x: Seq<char>| s.contains(x) ==> rank(m) <= rank(x),
    decreases s.len(),
{
    if s.len() == 1 {
        assert(s[0] == s[0]);
        assert forall|x: Seq<char>| s.contains(x) implies rank(s[0]) <= rank(x) by {
            let k = choose|k: int| 0 <= k < s.len() && s[k] == x;
        }
        s[0]
    } else {
        let init = s.drop_last();
        let m0 = lemma_least_rank(init, rank);
        let k0 = choose|k: int| 0 <= k < init.len() && init[k] == m0;
        assert(s[k0] == m0);
        let m = if rank(s.last()) < rank(m0) {
            s.last()
        } else {
            m0
        };
        assert(s[s.len() - 1] == s.last());
        assert forall|x: Seq<char>| s.contains(x) implies rank(m) <= rank(x) by {
            let k = choose|k: int| 0 <= k < s.len() && s[k] == x;
            if k < s.len() - 1 {
                assert(init[k] == x);
                assert(init.contains(x));
            }
        }
        m
    }
}

/// With no cycle among the jobs of `remaining`, a job's group comes after
/// the group of each job it depends on, and every job has a group.
proof fn lemma_layers(
    g: DependencyGraph,
    remaining: Seq<Seq<char>>,
    rank: spec_fn(Seq<char>) -> nat,
    a: Seq<char>,
    b: Seq<char>,
)
    requires
        g.ranked(remaining, rank),
        remaining.contains(a),
        remaining.contains(b),
        g.deps(a).contains(b),
    ensures
        0 <= group_index(g.groups_from(remaining), b) < group_index(g.groups_from(remaining), a)
            < g.groups_from(remaining).len(),
    decreases remaining.len(),
{
    let wait = |j: Seq<char>| g.blocked(j, remaining);
    let run = |j: Seq<char>| !g.blocked(j, remaining);
    let waiting = g.waiting(remaining);
    let runnable = g.runnable(remaining);
    lemma_filter_members(remaining, wait);
    lemma_filter_members(remaining, run);
    lemma_filter_split(remaining, wait, run);
    let m = lemma_least_rank(remaining, rank);
    if g.blocked(m, remaining) {
        let d = choose|d: Seq<char>| #[trigger] g.deps(m).contains(d) && remaining.contains(d);
        assert(rank(d) < rank(m));
    }
    assert(runnable.contains(m));
    assert(runnable.len() > 0);
    let groups = g.groups_from(remaining);
    let later = g.groups_from(waiting);
    assert(groups == seq![runnable] + later);
    assert(groups.drop_first() =~= later);
    assert(groups[0] == runnable);
    assert(g.blocked(a, remaining));
    assert(waiting.contains(a) && !runnable.contains(a));
    assert forall|j: Seq<char>, d: Seq<char>|
        waiting.contains(j) && waiting.contains(d) && #[trigger] g.deps(j).contains(
            d,
        ) implies rank(d) < rank(j) by {}
    lemma_placed(g, waiting, rank, a);
    if g.blocked(b, remaining) {
        assert(waiting.contains(b) && !runnable.contains(b));
        lemma_layers(g, waiting, rank, a, b);
    } else {
        assert(runnable.contains(b));
        lemma_group_index_bounds(later, a);
    }
}

proof fn lemma_group_index_bounds(groups: Seq<Seq<Seq<char>>>, job: Seq<char>)
    ensures
        0 <= group_index(groups, job) <= groups.len(),
    decreases groups.len(),
{
    if groups.len() > 0 && !groups[0].contains(job) {
        lemma_group_index_bounds(groups.drop_first(), job);
    }
}

/// With no cycle among the jobs of `remaining`, each of them has a group.
proof fn lemma_placed(
    g: DependencyGraph,
    remaining: Seq<Seq<char>>,
    rank: spec_fn(Seq<char>) -> nat,
    a: Seq<char>,
)
    requires
        g.ranked(remaining, rank),
        remaining.contains(a),
    ensures
        0 <= group_index(g.groups_from(remaining), a) < g.groups_from(remaining).len(),
    decreases remaining.len(),
{
    let wait = |j: Seq<char>| g.blocked(j, remaining);
    let run = |j: Seq<char>| !g.blocked(j, remaining);
    let waiting = g.waiting(remaining);
    let runnable = g.runnable(remaining);
    lemma_filter_members(remaining, wait);
    lemma_filter_members(remaining, run);
    lemma_filter_split(remaining, wait, run);
    let m = lemma_least_rank(remaining, rank);
    if g.blocked(m, remaining) {
        let d = choose|d: Seq<char>| #[trigger] g.deps(m).contains(d) && remaining.contains(d);
        assert(rank(d) < rank(m));
    }
    assert(runnable.contains(m));
    let groups = g.groups_from(remaining);
    let later = g.groups_from(waiting);
    assert(groups == seq![runnable] + later);
    assert(groups.drop_first() =~= later);
    assert(groups[0] == runnable);
    if g.blocked(a, remaining) {
        assert(waiting.contains(a) && !runnable.contains(a));
        assert forall|j: Seq<char>, d: Seq<char>|
            waiting.contains(j) && waiting.contains(d) && #[trigger] g.deps(j).contains(
                d,
            ) implies rank(d) < rank(j) by {}
        lemma_placed(g, waiting, rank, a);
    } else {
        assert(runnable.contains(a));
    }
}

/// The members of `with_id(s, x)` are `x` and the members of `s`.
proof fn lemma_with_id_members(s: Seq<Seq<char>>, x: Seq<char>)
    ensures
        forall|y: Seq<char>| #[trigger] with_id(s, x).contains(y) <==> s.contains(y) || y == x,
    decreases s.len(),
{
    let r = with_id(s, x);
    if s.len() == 0 {
        assert(r[0] == x);
    } else if s[0] == x {
    } else if lex_less(x, s[0]) {
        assert(r[0] == x);
        assert forall|y: Seq<char>| #[trigger] r.contains(y) <==> s.contains(y) || y == x by {
            if s.contains(y) {
                let k = choose|k: int| 0 <= k < s.len() && s[k] == y;
                assert(r[k + 1] == y);
            }
            if r.contains(y) {
                let k = choose|k: int| 0 <= k < r.len() && r[k] == y;
                if k > 0 {
                    assert(s[k - 1] == y);
                }
            }
        }
    } else {
        let tail = with_id(s.drop_first(), x);
        lemma_with_id_members(s.drop_first(), x);
        assert(r[0] == s[0]);
        assert forall|y: Seq<char>| #[trigger] r.contains(y) <==> s.contains(y) || y == x by {
            if s.contains(y) {
                let k = choose|k: int| 0 <= k < s.len() && s[k] == y;
                if k > 0 {
                    assert(s.drop_first()[k - 1] == y);
                    assert(tail.contains(y));
                    let t = choose|t: int| 0 <= t < tail.len() && tail[t] == y;
                    assert(r[t + 1] == y);
                }
            }
            if y == x {
                assert(tail.contains(y));
                let t = choose|t: int| 0 <= t < tail.len() && tail[t] == y;
                assert(r[t + 1] == y);
            }
            if r.contains(y) {
                let k = choose|k: int| 0 <= k < r.len() && r[k] == y;
                if k > 0 {
                    assert(tail[k - 1] == y);
                    assert(tail.contains(y));
                    if s.drop_first().contains(y) {
                        let t = choose|t: int|
                            0 <= t < s.drop_first().len() && s.drop_first()[t] == y;
                        assert(s[t + 1] == y);
                    }
                }
            }
        }
    }
}

/// The identifiers in order are the identifiers given.
pub proof fn lemma_sorted_members(s: Seq<Seq<char>>)
    ensures
        forall|y: Seq<char>| #[trigger] sorted_ids(s).contains(y) <==> s.contains(y),
    decreases s.len(),
{
    if s.len() > 0 {
        let init = s.drop_last();
        lemma_sorted_members(init);
        lemma_with_id_members(sorted_ids(init), s.last());
        assert forall|y: Seq<char>| #[trigger] sorted_ids(s).contains(y) <==> s.contains(y) by {
            if s.contains(y) {
                let k = choose|k: int| 0 <= k < s.len() && s[k] == y;
                if k < s.len() - 1 {
                    assert(init[k] == y);
                    assert(init.contains(y));
                }
            }
            if init.contains(y) {
                let k = choose|k: int| 0 <= k < init.len() && init[k] == y;
                assert(s[k] == y);
            }
            assert(s[s.len() - 1] == s.last());
        }
    }
}

/// Where the dependencies among the ready jobs form no cycle, every ready
/// job has a group, and the group of a job comes after the group of each
/// ready job it depends on.
pub proof fn lemma_dependencies_run_first(
    g: DependencyGraph,
    ready: Seq<Seq<char>>,
    job: Seq<char>,
    dependency: Seq<char>,
)
    requires
        g.acyclic(ready),
        ready.contains(job),
        ready.contains(dependency),
        g.deps(job).contains(dependency),
    ensures
        0 <= group_index(g.groups(ready), dependency) < group_index(g.groups(ready), job)
            < g.groups(ready).len(),
{
    let rank = choose|rank: spec_fn(Seq<char>) -> nat| g.ranked(ready, rank);
    lemma_sorted_members(ready);
    let start = sorted_ids(ready);
    assert forall|j: Seq<char>, d: Seq<char>|
        start.contains(j) && start.contains(d) && #[trigger] g.deps(j).contains(d) implies rank(
        d,
    ) < rank(j) by {}
    lemma_layers(g, start, rank, job, dependency);
}

/// Where the dependencies among the ready jobs form no cycle, no job
/// depends on a job of its own group.
pub proof fn lemma_group_members_independent(
    g: DependencyGraph,
    ready: Seq<Seq<char>>,
    job: Seq<char>,
    other: Seq<char>,
)
    requires
        g.acyclic(ready),
        ready.contains(job),
        ready.contains(other),
        group_index(g.groups(ready), job) == group_index(g.groups(ready), other),
    ensures
        !g.deps(job).contains(other),
{
    if g.deps(job).contains(other) {
        lemma_dependencies_run_first(g, ready, job, other);
    }
}

/// The jobs in runs of at most `limit`, in order; in one run where the
/// limit is 0, which stands for none.
pub open spec fn chunks(jobs: Seq<Seq<char>>, limit: nat) -> Seq<Seq<Seq<char>>>
    decreases jobs.len(),
{
    if limit == 0 || jobs.len() <= limit {
        seq![jobs]
    } else {
        seq![jobs.take(limit as int)] + chunks(jobs.skip(limit as int), limit)
    }
}

/// The groups cut into batches of at most `limit` jobs: the batches of the
/// first group, then those of the second, and so on.
pub open spec fn batched(groups: Seq<Seq<Seq<char>>>, limit: nat) -> Seq<Seq<Seq<char>>>
    decreases groups.len(),
{
    if groups.len() == 0 {
        Seq::empty()
    } else {
        batched(groups.drop_last(), limit) + chunks(groups.last(), limit)
    }
}

/// The jobs of the groups, in order.
pub open spec fn in_order(groups: Seq<Seq<Seq<char>>>) -> Seq<Seq<char>>
    decreases groups.len(),
{
    if groups.len() == 0 {
        Seq::empty()
    } else {
        in_order(groups.drop_last()) + groups.last()
    }
}

fn copy_range(v: &Vec<String>, from: usize, to: usize) -> (r: Vec<String>)
    requires
        from <= to <= v.len(),
    ensures
        strs(r@) == strs(v@).subrange(from as int, to as int),
{
    let mut r: Vec<String> = Vec::new();
    let mut i: usize = from;
    assert(strs(r@) =~= strs(v@).subrange(from as int, from as int));
    while i < to
        invariant
            from <= i <= to <= v.len(),
            strs(r@) == strs(v@).subrange(from as int, i as int),
        decreases to - i,
    {
        let item = v[i].clone();
        proof {
            lemma_strs_push(r@, item);
            assert(strs(r@).push(item@) =~= strs(v@).subrange(from as int, i + 1));
        }
        r.push(item);
        i += 1;
    }
    r
}

fn push_chunks(out: &mut Vec<Vec<String>>, group: &Vec<String>, limit: usize)
    ensures
        group_views(final(out)@) == group_views(old(out)@) + chunks(strs(group@), limit as nat),
{
    let ghost head = group_views(out@);
    let ghost all = strs(group@);
    let mut from: usize = 0;
    assert(all.skip(0) =~= all);
    loop
        invariant
            from <= group.len(),
            all == strs(group@),
            head == group_views(old(out)@),
            head + chunks(all, limit as nat) == group_views(out@) + chunks(
                all.skip(from as int),
                limit as nat,
            ),
        decreases group.len() - from,
    {
        let ghost rest = all.skip(from as int);
        let ghost before = group_views(out@);
        if limit == 0 || group.len() - from <= limit {
            let part = copy_range(group, from, group.len());
            proof {
                assert(all.subrange(from as int, group.len() as int) =~= rest);
                assert(rest.len() == group.len() - from);
                assert(chunks(rest, limit as nat) == seq![rest]);
                lemma_groups_push(out@, part);
                assert(before.push(rest) =~= before + seq![rest]);
            }
            out.push(part);
            return ;
        }
        let part = copy_range(group, from, from + limit);
        proof {
            assert(rest.len() == group.len() - from);
            assert(chunks(rest, limit as nat) == seq![rest.take(limit as int)] + chunks(
                rest.skip(limit as int),
                limit as nat,
            ));
            assert(all.subrange(from as int, from + limit) =~= rest.take(limit as int));
            assert(rest.skip(limit as int) =~= all.skip(from + limit));
            lemma_groups_push(out@, part);
            assert(before.push(rest.take(limit as int)) + chunks(
                all.skip(from + limit),
                limit as nat,
            ) =~= before + (seq![rest.take(limit as int)] + chunks(
                all.skip(from + limit),
                limit as nat,
            )));
        }
        out.push(part);
        from = from + limit;
    }
}

/// Cuts the groups into batches of at most `max_concurrent` jobs; 0 stands
/// for no limit. The jobs keep their order, and no batch holds jobs of two
/// groups.
pub fn batches(groups: &Vec<Vec<String>>, max_concurrent: usize) -> (r: Vec<Vec<String>>)
    ensures
        group_views(r@) == batched(group_views(groups@), max_concurrent as nat),
{
    let mut r: Vec<Vec<String>> = Vec::new();
    let ghost all = group_views(groups@);
    let mut i: usize = 0;
    assert(group_views(r@) =~= batched(all.take(0), max_concurrent as nat));
    while i < groups.len()
        invariant
            i <= groups.len(),
            all == group_views(groups@),
            group_views(r@) == batched(all.take(i as int), max_concurrent as nat),
        decreases groups.len() - i,
    {
        assert(all.take(i + 1).drop_last() =~= all.take(i as int));
        assert(all.take(i + 1).last() == strs(groups@[i as int]@));
        push_chunks(&mut r, &groups[i], max_concurrent);
        i += 1;
    }
    assert(all.take(groups.len() as int) =~= all);
    r
}

/// The jobs of the runs are the jobs, in order.
pub proof fn lemma_chunks_in_order(jobs: Seq<Seq<char>>, limit: nat)
    ensures
        in_order(chunks(jobs, limit)) == jobs,
    decreases jobs.len(),
{
    if limit == 0 || jobs.len() <= limit {
        lemma_in_order_one(jobs);
    } else {
        lemma_chunks_in_order(jobs.skip(limit as int), limit);
        lemma_in_order_add(seq![jobs.take(limit as int)], chunks(jobs.skip(limit as int), limit));
        lemma_in_order_one(jobs.take(limit as int));
        assert(jobs.take(limit as int) + jobs.skip(limit as int) =~= jobs);
    }
}

/// The jobs of one group are the group.
pub proof fn lemma_in_order_one(group: Seq<Seq<char>>)
    ensures
        in_order(seq![group]) == group,
{
    let one = seq![group];
    assert(one.drop_last() =~= Seq::<Seq<Seq<char>>>::empty());
    assert(in_order(one.drop_last()) =~= Seq::<Seq<char>>::empty());
    assert(one.last() == group);
    assert(in_order(one) =~= group);
}

/// The jobs of two sequences of groups, one after the other.
pub proof fn lemma_in_order_add(a: Seq<Seq<Seq<char>>>, b: Seq<Seq<Seq<char>>>)
    ensures
        in_order(a + b) == in_order(a) + in_order(b),
    decreases b.len(),
{
    if b.len() == 0 {
        assert(a + b =~= a);
        assert(in_order(a) + in_order(b) =~= in_order(a));
    } else {
        assert((a + b).drop_last() =~= a + b.drop_last());
        lemma_in_order_add(a, b.drop_last());
        assert(in_order(a + b) =~= in_order(a) + in_order(b));
    }
}

/// Cutting the groups into batches keeps the order of the jobs: the jobs
/// of the batches, in order, are the jobs of the groups, in order.
pub proof fn lemma_batches_keep_order(groups: Seq<Seq<Seq<char>>>, limit: nat)
    ensures
        in_order(batched(groups, limit)) == in_order(groups),
    decreases groups.len(),
{
    if groups.len() > 0 {
        lemma_batches_keep_order(groups.drop_last(), limit);
        lemma_chunks_in_order(groups.last(), limit);
        lemma_in_order_add(batched(groups.drop_last(), limit), chunks(groups.last(), limit));
    }
}

/// No text comes before itself.
pub proof fn lemma_lex_irreflexive(a: Seq<char>)
    ensures
        !lex_less(a, a),
    decreases a.len(),
{
    if a.len() > 0 {
        lemma_lex_irreflexive(a.drop_first());
    }
}

/// The order of texts is transitive.
pub proof fn lemma_lex_transitive(a: Seq<char>, b: Seq<char>, c: Seq<char>)
    requires
        lex_less(a, b),
        lex_less(b, c),
    ensures
        lex_less(a, c),
    decreases a.len(),
{
    if a.len() > 0 && b.len() > 0 && c.len() > 0 {
        if a[0] == b[0] && b[0] == c[0] {
            lemma_lex_transitive(a.drop_first(), b.drop_first(), c.drop_first());
        }
    }
}

/// Of two texts that differ, one comes before the other.
pub proof fn lemma_lex_total(a: Seq<char>, b: Seq<char>)
    ensures
        a == b || lex_less(a, b) || lex_less(b, a),
    decreases a.len(),
{
    if a.len() == 0 || b.len() == 0 {
        if a.len() == 0 && b.len() == 0 {
            assert(a =~= b);
        }
    } else if a[0] == b[0] {
        lemma_lex_total(a.drop_first(), b.drop_first());
        if a.drop_first() == b.drop_first() {
            assert(a =~= seq![a[0]] + a.drop_first());
            assert(b =~= seq![b[0]] + b.drop_first());
        }
    } else {
        vstd::utf8::char_u32_cast(a[0], a[0] as u32);
        vstd::utf8::char_u32_cast(b[0], b[0] as u32);
    }
}

/// Each text comes before the texts behind it.
pub open spec fn ascending(s: Seq<Seq<char>>) -> bool {
    forall|i: int, j: int| 0 <= i < j < s.len() ==> lex_less(s[i], s[j])
}

proof fn lemma_with_id_ascending(s: Seq<Seq<char>>, x: Seq<char>)
    requires
        ascending(s),
    ensures
        ascending(with_id(s, x)),
    decreases s.len(),
{
    let r = with_id(s, x);
    if s.len() == 0 {
    } else if s[0] == x {
    } else if lex_less(x, s[0]) {
        assert forall|i: int, j: int| 0 <= i < j < r.len() implies lex_less(r[i], r[j]) by {
            if i == 0 {
                if j > 1 {
                    assert(lex_less(s[0], s[j - 1]));
                    lemma_lex_transitive(x, s[0], s[j - 1]);
                }
            } else {
                assert(lex_less(s[i - 1], s[j - 1]));
            }
        }
    } else {
        let tail = s.drop_first();
        assert forall|i: int, j: int| 0 <= i < j < tail.len() implies lex_less(tail[i], tail[j]) by {
            assert(lex_less(s[i + 1], s[j + 1]));
        }
        lemma_with_id_ascending(tail, x);
        lemma_with_id_members(tail, x);
        lemma_lex_total(x, s[0]);
        let rest = with_id(tail, x);
        assert forall|i: int, j: int| 0 <= i < j < r.len() implies lex_less(r[i], r[j]) by {
            if i == 0 {
                assert(r[j] == rest[j - 1]);
                assert(rest.contains(rest[j - 1]));
                if tail.contains(rest[j - 1]) {
                    let k = choose|k: int| 0 <= k < tail.len() && tail[k] == rest[j - 1];
                    assert(lex_less(s[0], s[k + 1]));
                }
            } else {
                assert(lex_less(rest[i - 1], rest[j - 1]));
            }
        }
    }
}

/// The identifiers in order are ascending.
pub proof fn lemma_sorted_ascending(s: Seq<Seq<char>>)
    ensures
        ascending(sorted_ids(s)),
    decreases s.len(),
{
    if s.len() > 0 {
        lemma_sorted_ascending(s.drop_last());
        lemma_with_id_ascending(sorted_ids(s.drop_last()), s.last());
    }
}

/// What is left of an ascending sequence by a filter is ascending.
pub proof fn lemma_filter_ascending(s: Seq<Seq<char>>, p: spec_fn(Seq<char>) -> bool)
    requires
        ascending(s),
    ensures
        ascending(s.filter(p)),
    decreases s.len(),
{
    reveal(Seq::filter);
    if s.len() > 0 {
        let init = s.drop_last();
        assert forall|i: int, j: int| 0 <= i < j < init.len() implies lex_less(init[i], init[j]) by {
            assert(lex_less(s[i], s[j]));
        }
        lemma_filter_ascending(init, p);
        lemma_filter_members(init, p);
        let f = s.filter(p);
        if p(s.last()) {
            assert forall|i: int, j: int| 0 <= i < j < f.len() implies lex_less(f[i], f[j]) by {
                if j == f.len() - 1 {
                    assert(init.filter(p).contains(f[i]));
                    let k = choose|k: int| 0 <= k < init.len() && init[k] == f[i];
                    assert(lex_less(s[k], s[s.len() - 1]));
                } else {
                    assert(lex_less(init.filter(p)[i], init.filter(p)[j]));
                }
            }
        }
    }
}

proof fn lemma_groups_from_ascending(g: DependencyGraph, remaining: Seq<Seq<char>>, k: int)
    requires
        ascending(remaining),
        0 <= k < g.groups_from(remaining).len(),
    ensures
        ascending(g.groups_from(remaining)[k]),
        g.groups_from(remaining)[k].len() > 0,
        forall|x: Seq<char>| g.groups_from(remaining)[k].contains(x) ==> remaining.contains(x),
    decreases remaining.len(),
{
    let wait = |j: Seq<char>| g.blocked(j, remaining);
    let run = |j: Seq<char>| !g.blocked(j, remaining);
    if remaining.len() == 0 {
    } else if g.runnable(remaining).len() == 0 {
    } else {
        lemma_filter_split(remaining, wait, run);
        lemma_filter_ascending(remaining, run);
        lemma_filter_ascending(remaining, wait);
        lemma_filter_members(remaining, run);
        lemma_filter_members(remaining, wait);
        let groups = g.groups_from(remaining);
        let later = g.groups_from(g.waiting(remaining));
        assert(groups == seq![g.runnable(remaining)] + later);
        if k > 0 {
            assert(groups[k] == later[k - 1]);
            lemma_groups_from_ascending(g, g.waiting(remaining), k - 1);
            assert forall|x: Seq<char>| groups[k].contains(x) implies remaining.contains(x) by {
                assert(g.waiting(remaining).contains(x));
            }
        } else {
            assert(groups[0] == g.runnable(remaining));
            assert forall|x: Seq<char>| groups[k].contains(x) implies remaining.contains(x) by {
                assert(g.runnable(remaining).contains(x));
            }
        }
    }
}

/// Each group holds at least one job, holds ready jobs only, and is in
/// ascending order of its jobs' identifiers, so that no job is in it
/// twice.
pub proof fn lemma_groups_ascending(g: DependencyGraph, ready: Seq<Seq<char>>, k: int)
    requires
        0 <= k < g.groups(ready).len(),
    ensures
        g.groups(ready)[k].len() > 0,
        ascending(g.groups(ready)[k]),
        forall|x: Seq<char>| g.groups(ready)[k].contains(x) ==> ready.contains(x),
{
    lemma_sorted_ascending(ready);
    lemma_sorted_members(ready);
    lemma_groups_from_ascending(g, sorted_ids(ready), k);
    assert forall|x: Seq<char>| g.groups(ready)[k].contains(x) implies ready.contains(x) by {
        assert(sorted_ids(ready).contains(x));
    }
}

/// The groups together hold as many jobs as remain.
proof fn lemma_groups_from_count(g: DependencyGraph, remaining: Seq<Seq<char>>)
    ensures
        in_order(g.groups_from(remaining)).len() == remaining.len(),
        forall|x: Seq<char>| remaining.contains(x) ==> in_order(g.groups_from(remaining)).contains(x),
    decreases remaining.len(),
{
    let wait = |j: Seq<char>| g.blocked(j, remaining);
    let run = |j: Seq<char>| !g.blocked(j, remaining);
    if remaining.len() == 0 {
    } else if g.runnable(remaining).len() == 0 {
        lemma_in_order_one(remaining);
    } else {
        lemma_filter_split(remaining, wait, run);
        lemma_filter_members(remaining, run);
        lemma_filter_members(remaining, wait);
        let first = g.runnable(remaining);
        let later = g.groups_from(g.waiting(remaining));
        lemma_groups_from_count(g, g.waiting(remaining));
        lemma_in_order_add(seq![first], later);
        lemma_in_order_one(first);
        let all = in_order(g.groups_from(remaining));
        assert(all == first + in_order(later));
        assert forall|x: Seq<char>| remaining.contains(x) implies all.contains(x) by {
            if g.blocked(x, remaining) {
                assert(g.waiting(remaining).contains(x));
                let i = choose|i: int| 0 <= i < in_order(later).len() && in_order(later)[i] == x;
                assert(all[first.len() + i] == x);
            } else {
                assert(first.contains(x));
                let i = choose|i: int| 0 <= i < first.len() && first[i] == x;
                assert(all[i] == x);
            }
        }
    }
}

/// Every ready job has its place in the groups, and the groups together
/// hold no more jobs than there are ready jobs, each named once.
pub proof fn lemma_groups_hold_all(g: DependencyGraph, ready: Seq<Seq<char>>, job: Seq<char>)
    requires
        ready.contains(job),
    ensures
        in_order(g.groups(ready)).contains(job),
        in_order(g.groups(ready)).len() == sorted_ids(ready).len(),
        ascending(sorted_ids(ready)),
{
    lemma_sorted_members(ready);
    lemma_sorted_ascending(ready);
    lemma_groups_from_count(g, sorted_ids(ready));
    assert(sorted_ids(ready).contains(job));
}

} // verus!
