//! Edit instructions: the line grammar they are written in, and applying
//! them to a file's content, exactly or modulo white space.

use crate::text::{
    lowercased, to_lowercase,
    lemma_line_bounds, lemma_line_start_monotone, line_end, line_start, line_start_of,
    append, append_decimal, append_str, byte_len, byte_len_of, chars_of, collapse, collapse_of,
    contains, contains_text, debug_quoted, decimal, find, has_prefix, join, join_of,
    lemma_byte_len_split, lemma_index_of_bounds, lemma_rows_push, lemma_strs_push, lines, lines_of,
    lower, prefix, prefix_of, quoted, replace_first, replace_first_in, rows, starts_with, string_of,
    strip_cr, strs, subvec, to_lower, trim, trim_of, vec_eq, index_of,
};
use crate::job::{is_same_file, names_file, same_file};
use vstd::prelude::*;

verus! {

/// One instruction: in the file at `file_path`, replace `find` by `replace`.
#[derive(Debug, Clone, PartialEq, Eq)]
pub struct EditInstruction {
    pub file_path: String,
    pub find: String,
    pub replace: String,
}

/// An instruction as three texts.
pub struct EditView {
    pub file_path: Seq<char>,
    pub find: Seq<char>,
    pub replace: Seq<char>,
}

impl View for EditInstruction {
    type V = EditView;

    open spec fn view(&self) -> EditView {
        EditView { file_path: self.file_path@, find: self.find@, replace: self.replace@ }
    }
}

/// The instructions read from one answer, in order, and the files they
/// name, each once, in the order of their first instruction.
#[derive(Debug, Clone, PartialEq, Eq)]
pub struct ParsedEdits {
    pub edits: Vec<EditInstruction>,
    pub affected_files: Vec<String>,
}

/// The views of a sequence of instructions.
pub open spec fn edit_views(s: Seq<EditInstruction>) -> Seq<EditView> {
    Seq::new(s.len(), |i: int| s[i]@)
}

/// The instructions among `refs`, in order.
pub open spec fn edit_ref_views(refs: Seq<&EditInstruction>) -> Seq<EditView> {
    Seq::new(refs.len(), |i: int| (*refs[i])@)
}

impl ParsedEdits {
    /// The instructions for the file at `path`, in order: those whose path
    /// names the same file by its parts.
    pub fn edits_for_file(&self, path: &String) -> (r: Vec<&EditInstruction>)
        ensures
            edit_ref_views(r@) == edit_views(self.edits@).filter(
                |e: EditView| same_file(e.file_path, path@),
            ),
    {
        let mut r: Vec<&EditInstruction> = Vec::new();
        let mut i: usize = 0;
        let ghost pred = |e: EditView| same_file(e.file_path, path@);
        assert(edit_ref_views(r@) =~= Seq::<EditView>::empty());
        assert(edit_views(self.edits@).take(0) =~= Seq::<EditView>::empty());
        while i < self.edits.len()
            invariant
                i <= self.edits.len(),
                pred == (|e: EditView| same_file(e.file_path, path@)),
                edit_ref_views(r@) == edit_views(self.edits@).take(i as int).filter(pred),
            decreases self.edits.len() - i,
        {
            let ghost all = edit_views(self.edits@);
            let ghost before = edit_ref_views(r@);
            proof {
                reveal(Seq::filter);
                assert(all.take(i + 1).drop_last() =~= all.take(i as int));
                assert(all.take(i + 1).last() == all[i as int]);
            }
            if is_same_file(self.edits[i].file_path.as_str(), path.as_str()) {
                r.push(&self.edits[i]);
                assert(edit_ref_views(r@) =~= before.push(all[i as int]));
            }
            i += 1;
        }
        assert(edit_views(self.edits@).take(self.edits.len() as int) =~= edit_views(
            self.edits@,
        ));
        r
    }
}

/// A block's text after one more line: the line itself where the block was
/// empty, else the block, a line feed and the line.
pub open spec fn accumulate(block: Seq<char>, line: Seq<char>) -> Seq<char> {
    if block.len() > 0 {
        block + seq!['\n'] + line
    } else {
        line
    }
}

/// What has been read of an answer: the instructions recorded, the files
/// they name, the file that the next instruction belongs to, the two blocks
/// of the instruction being read, and which of them the next line joins.
pub struct EditScan {
    pub edits: Seq<EditView>,
    pub files: Seq<Seq<char>>,
    pub current: Option<Seq<char>>,
    pub find: Seq<char>,
    pub replace: Seq<char>,
    pub in_find: bool,
    pub in_replace: bool,
}

/// Nothing read yet.
pub open spec fn scan_start() -> EditScan {
    EditScan {
        edits: Seq::empty(),
        files: Seq::empty(),
        current: None,
        find: Seq::empty(),
        replace: Seq::empty(),
        in_find: false,
        in_replace: false,
    }
}

/// The state after one more line. The markers are read without regard to
/// surrounding white space or to the case of their ASCII letters:
/// - `FILE:` and a path name the file of the instructions that follow;
/// - `FIND:` opens an empty find block, `REPLACE:` an empty replace block;
/// - `END` records the instruction where a file is named and neither block
///   is empty, each block trimmed, and empties both blocks;
/// - any other line joins the block that is open, if one is.
pub open spec fn scan_step(st: EditScan, line: Seq<char>) -> EditScan {
    let t = trim(line);
    let low = lower(t);
    if has_prefix(low, "file:"@) {
        EditScan { current: Some(trim(t.skip(5))), ..st }
    } else if low == "find:"@ {
        EditScan { in_find: true, find: Seq::empty(), ..st }
    } else if low == "replace:"@ {
        EditScan { in_find: false, in_replace: true, replace: Seq::empty(), ..st }
    } else if low == "end"@ {
        let record = st.current is Some && st.find.len() > 0 && st.replace.len() > 0;
        EditScan {
            edits: if record {
                st.edits.push(
                    EditView {
                        file_path: st.current->0,
                        find: trim(st.find),
                        replace: trim(st.replace),
                    },
                )
            } else {
                st.edits
            },
            files: if record && !names_file(st.files, st.current->0) {
                st.files.push(st.current->0)
            } else {
                st.files
            },
            find: Seq::empty(),
            replace: Seq::empty(),
            in_replace: false,
            ..st
        }
    } else if st.in_find {
        EditScan { find: accumulate(st.find, line), ..st }
    } else if st.in_replace {
        EditScan { replace: accumulate(st.replace, line), ..st }
    } else {
        st
    }
}

/// The state after the given lines, read in order.
pub open spec fn scan_lines(ls: Seq<Seq<char>>) -> EditScan
    decreases ls.len(),
{
    if ls.len() == 0 {
        scan_start()
    } else {
        scan_step(scan_lines(ls.drop_last()), ls.last())
    }
}

/// The instructions that an answer holds.
pub open spec fn parsed_edits(response: Seq<char>) -> Seq<EditView> {
    scan_lines(lines(response)).edits
}

/// The files that the instructions of an answer name, each once.
pub open spec fn parsed_files(response: Seq<char>) -> Seq<Seq<char>> {
    scan_lines(lines(response)).files
}

struct Scanner {
    edits: Vec<EditInstruction>,
    files: Vec<String>,
    current: Option<Vec<char>>,
    find: Vec<char>,
    replace: Vec<char>,
    in_find: bool,
    in_replace: bool,
}

impl Scanner {
    spec fn state(&self) -> EditScan {
        EditScan {
            edits: edit_views(self.edits@),
            files: strs(self.files@),
            current: match self.current {
                Some(p) => Some(p@),
                None => None,
            },
            find: self.find@,
            replace: self.replace@,
            in_find: self.in_find,
            in_replace: self.in_replace,
        }
    }

    fn knows_file(&self, path: &Vec<char>) -> (r: bool)
        ensures
            r == names_file(strs(self.files@), path@),
    {
        let p = string_of(path);
        let mut i: usize = 0;
        while i < self.files.len()
            invariant
                i <= self.files.len(),
                p@ == path@,
                forall|j: int| 0 <= j < i ==> !same_file(strs(self.files@)[j], path@),
            decreases self.files.len() - i,
        {
            if is_same_file(self.files[i].as_str(), p.as_str()) {
                assert(same_file(strs(self.files@)[i as int], path@));
                return true;
            }
            i += 1;
        }
        false
    }

    fn record(&mut self)
        requires
            old(self).current is Some,
        ensures
            final(self).state() == (EditScan {
                edits: old(self).state().edits.push(
                    EditView {
                        file_path: old(self).state().current->0,
                        find: trim(old(self).find@),
                        replace: trim(old(self).replace@),
                    },
                ),
                files: if !names_file(old(self).state().files, old(self).state().current->0) {
                    old(self).state().files.push(old(self).state().current->0)
                } else {
                    old(self).state().files
                },
                ..old(self).state()
            }),
    {
        let ghost before = self.state();
        let known = match &self.current {
            Some(p) => self.knows_file(p),
            None => true,
        };
        let path = match &self.current {
            Some(p) => string_of(p),
            None => String::new(),
        };
        let edit = EditInstruction {
            file_path: path.clone(),
            find: string_of(&trim_of(&self.find)),
            replace: string_of(&trim_of(&self.replace)),
        };
        self.edits.push(edit);
        assert(edit_views(self.edits@) =~= before.edits.push(edit@));
        if !known {
            proof {
                lemma_strs_push(self.files@, path);
            }
            self.files.push(path);
        }
    }

    fn step(&mut self, line: &Vec<char>)
        ensures
            final(self).state() == scan_step(old(self).state(), line@),
    {
        let t = trim_of(line);
        let low = to_lower(&t);
        proof {
            reveal_strlit("file:");
        }
        if starts_with(&low, &chars_of("file:")) {
            let rest = subvec(&t, 5, t.len());
            self.current = Some(trim_of(&rest));
        } else if vec_eq(&low, &chars_of("find:")) {
            self.in_find = true;
            self.find = Vec::new();
        } else if vec_eq(&low, &chars_of("replace:")) {
            self.in_find = false;
            self.in_replace = true;
            self.replace = Vec::new();
        } else if vec_eq(&low, &chars_of("end")) {
            self.in_replace = false;
            if self.current.is_some() && self.find.len() > 0 && self.replace.len() > 0 {
                self.record();
            }
            self.find = Vec::new();
            self.replace = Vec::new();
        } else if self.in_find {
            if self.find.len() > 0 {
                self.find.push('\n');
            }
            append(&mut self.find, line);
            assert(self.find@ =~= accumulate(old(self).find@, line@));
        } else if self.in_replace {
            if self.replace.len() > 0 {
                self.replace.push('\n');
            }
            append(&mut self.replace, line);
            assert(self.replace@ =~= accumulate(old(self).replace@, line@));
        }
    }
}

/// Reads the edit instructions of an answer.
pub fn parse_edit_instructions(response: &str) -> (r: ParsedEdits)
    ensures
        edit_views(r.edits@) == parsed_edits(response@),
        strs(r.affected_files@) == parsed_files(response@),
{
    let text = chars_of(response);
    let ls = lines_of(&text);
    let mut sc = Scanner {
        edits: Vec::new(),
        files: Vec::new(),
        current: None,
        find: Vec::new(),
        replace: Vec::new(),
        in_find: false,
        in_replace: false,
    };
    assert(sc.state().edits =~= Seq::<EditView>::empty());
    assert(sc.state().files =~= Seq::<Seq<char>>::empty());
    assert(rows(ls@).take(0) =~= Seq::<Seq<char>>::empty());
    let mut i: usize = 0;
    while i < ls.len()
        invariant
            i <= ls.len(),
            sc.state() == scan_lines(rows(ls@).take(i as int)),
        decreases ls.len() - i,
    {
        assert(rows(ls@).take(i + 1).drop_last() == rows(ls@).take(i as int));
        assert(rows(ls@).take(i + 1).last() == ls@[i as int]@);
        sc.step(&ls[i]);
        i += 1;
    }
    assert(rows(ls@).take(ls.len() as int) == rows(ls@));
    ParsedEdits { edits: sc.edits, affected_files: sc.files }
}

/// A text with its white space normalised: each line's words with one space
/// between each two, and one line feed between each two lines.
pub open spec fn normalized(text: Seq<char>) -> Seq<char> {
    join(lines(text).map_values(|l: Seq<char>| collapse(l)), seq!['\n'])
}

fn normalize_chars(text: &Vec<char>) -> (r: Vec<char>)
    ensures
        r@ == normalized(text@),
{
    let ls = lines_of(text);
    let mut out: Vec<Vec<char>> = Vec::new();
    let mut i: usize = 0;
    let ghost f = |l: Seq<char>| collapse(l);
    assert(rows(out@) =~= rows(ls@).take(0).map_values(f));
    while i < ls.len()
        invariant
            i <= ls.len(),
            f == (|l: Seq<char>| collapse(l)),
            rows(out@) == rows(ls@).take(i as int).map_values(f),
        decreases ls.len() - i,
    {
        let c = collapse_of(&ls[i]);
        proof {
            lemma_rows_push(out@, c);
            assert(rows(out@).push(c@) =~= rows(ls@).take(i + 1).map_values(f));
        }
        out.push(c);
        i += 1;
    }
    assert(rows(ls@).take(ls.len() as int) == rows(ls@));
    let mut sep: Vec<char> = Vec::new();
    sep.push('\n');
    assert(sep@ =~= seq!['\n']);
    join_of(&out, &sep)
}

/// Normalises the white space of a text.
pub fn normalize_whitespace(text: &str) -> (r: String)
    ensures
        r@ == normalized(text@),
{
    string_of(&normalize_chars(&chars_of(text)))
}

/// The lines `fl` match the lines of `cl` from `start` on, each modulo
/// white space.
pub open spec fn window_matches(cl: Seq<Seq<char>>, fl: Seq<Seq<char>>, start: int) -> bool {
    &&& 0 <= start
    &&& start + fl.len() <= cl.len()
    &&& forall|i: int| 0 <= i < fl.len() ==> #[trigger] fl[i] == normalized(cl[start + i])
}

/// The first line at or after `from` where `fl` matches; `None` where `fl`
/// is empty or matches nowhere.
pub open spec fn fuzzy_from(cl: Seq<Seq<char>>, fl: Seq<Seq<char>>, from: int) -> Option<int>
    decreases cl.len() + 1 - from,
{
    if from < 0 || fl.len() == 0 || from + fl.len() > cl.len() {
        None
    } else if window_matches(cl, fl, from) {
        Some(from)
    } else {
        fuzzy_from(cl, fl, from + 1)
    }
}

/// The lines that are looked for: those of the normalised find text.
pub open spec fn find_lines(find_text: Seq<char>) -> Seq<Seq<char>> {
    lines(normalized(find_text))
}

/// The first line of `content` from which the find text matches modulo
/// white space.
pub open spec fn fuzzy_start(content: Seq<char>, find_text: Seq<char>) -> Option<int> {
    fuzzy_from(lines(content), find_lines(find_text), 0)
}

/// The matched lines of `content` as they stand there, joined by line feeds.
pub open spec fn fuzzy_text(content: Seq<char>, find_text: Seq<char>) -> Option<Seq<char>> {
    match fuzzy_start(content, find_text) {
        Some(s) => Some(
            join(
                lines(content).subrange(s, s + find_lines(find_text).len()),
                seq!['\n'],
            ),
        ),
        None => None,
    }
}

/// The bytes of the first `k` lines, counting one line terminator each.
pub open spec fn lines_span(cl: Seq<Seq<char>>, k: int) -> nat
    decreases k,
{
    if k <= 0 || k > cl.len() {
        0
    } else {
        lines_span(cl, k - 1) + byte_len(cl[k - 1]) + 1
    }
}

/// The byte position where the matched lines start: the bytes of the lines
/// before them, counting one line terminator each.
pub open spec fn fuzzy_start_byte(content: Seq<char>, find_text: Seq<char>) -> nat {
    lines_span(lines(content), fuzzy_start(content, find_text)->0)
}

/// The byte position where the matched lines end: a terminator is counted
/// for each of them but the last line of the content.
pub open spec fn fuzzy_end_byte(content: Seq<char>, find_text: Seq<char>) -> int {
    let cl = lines(content);
    let s = fuzzy_start(content, find_text)->0;
    let e = s + find_lines(find_text).len();
    if e == cl.len() {
        lines_span(cl, e) - 1
    } else {
        lines_span(cl, e) as int
    }
}

/// The lines of a text take at most one byte more than the text.
pub proof fn lemma_lines_span(s: Seq<char>)
    ensures
        lines_span(lines(s), lines(s).len() as int) <= byte_len(s) + 1,
    decreases s.len(),
{
    let ls = lines(s);
    if s.len() == 0 {
    } else {
        lemma_index_of_bounds(s, '\n');
        let i = index_of(s, '\n');
        if 0 <= i < s.len() {
            let rest = lines(s.skip(i + 1));
            let first = strip_cr(s.take(i));
            lemma_lines_span(s.skip(i + 1));
            lemma_span_prepend(first, rest, rest.len() as int);
            assert(seq![first] + rest =~= ls);
            lemma_byte_len_split(s, i + 1);
            assert(s.take(i + 1).drop_last() =~= s.take(i));
            assert(s.take(i + 1).last() == '\n');
            assert(byte_len(s.take(i + 1)) == byte_len(s.take(i)) + 1);
            if s.take(i).len() > 0 && s.take(i).last() == '\r' {
                assert(byte_len(s.take(i)) == byte_len(first) + 1);
            }
        } else {
            assert(ls =~= seq![s]);
            assert(lines_span(ls, 0) == 0);
        }
    }
}

proof fn lemma_span_prepend(first: Seq<char>, rest: Seq<Seq<char>>, k: int)
    requires
        0 <= k <= rest.len(),
    ensures
        lines_span(seq![first] + rest, k + 1) == byte_len(first) + 1 + lines_span(rest, k),
    decreases k,
{
    let all = seq![first] + rest;
    if k == 0 {
        assert(lines_span(all, 0) == 0);
        assert(all[0] == first);
    } else {
        lemma_span_prepend(first, rest, k - 1);
        assert(all[k] == rest[k - 1]);
    }
}

proof fn lemma_span_monotone(cl: Seq<Seq<char>>, a: int, b: int)
    requires
        0 <= a <= b <= cl.len(),
    ensures
        lines_span(cl, a) <= lines_span(cl, b),
        b > a ==> lines_span(cl, a) < lines_span(cl, b),
    decreases b - a,
{
    if a < b {
        lemma_span_monotone(cl, a, b - 1);
    }
}

fn window_matches_at(cl: &Vec<Vec<char>>, fl: &Vec<Vec<char>>, start: usize) -> (r: bool)
    requires
        start + fl.len() <= cl.len(),
    ensures
        r == window_matches(rows(cl@), rows(fl@), start as int),
{
    let mut i: usize = 0;
    while i < fl.len()
        invariant
            i <= fl.len(),
            start + fl.len() <= cl.len(),
            forall|j: int| 0 <= j < i ==> #[trigger] rows(fl@)[j] == normalized(
                rows(cl@)[start + j],
            ),
        decreases fl.len() - i,
    {
        let n = normalize_chars(&cl[start + i]);
        if !vec_eq(&n, &fl[i]) {
            assert(rows(fl@)[i as int] != normalized(rows(cl@)[start + i]));
            return false;
        }
        i += 1;
    }
    true
}

/// The first line of `cl` from which `fl` matches modulo white space.
fn fuzzy_line(cl: &Vec<Vec<char>>, fl: &Vec<Vec<char>>) -> (r: Option<usize>)
    ensures
        match r {
            Some(s) => fuzzy_from(rows(cl@), rows(fl@), 0) == Some(s as int) && s + fl.len()
                <= cl.len(),
            None => fuzzy_from(rows(cl@), rows(fl@), 0) is None,
        },
{
    if fl.len() == 0 || fl.len() > cl.len() {
        return None;
    }
    let last: usize = cl.len() - fl.len();
    let mut s: usize = 0;
    while s <= last
        invariant
            s <= last,
            last == cl.len() - fl.len(),
            fl.len() > 0,
            fuzzy_from(rows(cl@), rows(fl@), 0) == fuzzy_from(rows(cl@), rows(fl@), s as int),
        decreases last - s,
    {
        if window_matches_at(cl, fl, s) {
            return Some(s);
        }
        if s == last {
            assert(fuzzy_from(rows(cl@), rows(fl@), s + 1) is None);
            return None;
        }
        s += 1;
    }
    None
}

/// The bytes of the first `k` lines, counting one line terminator each.
fn span_of(cl: &Vec<Vec<char>>, k: usize) -> (r: usize)
    requires
        k <= cl.len(),
        lines_span(rows(cl@), cl.len() as int) <= usize::MAX,
    ensures
        r == lines_span(rows(cl@), k as int),
{
    let mut r: usize = 0;
    let mut i: usize = 0;
    while i < k
        invariant
            i <= k <= cl.len(),
            r == lines_span(rows(cl@), i as int),
            lines_span(rows(cl@), cl.len() as int) <= usize::MAX,
        decreases k - i,
    {
        proof {
            lemma_span_monotone(rows(cl@), i + 1, cl.len() as int);
        }
        r = r + byte_len_of(&cl[i]) + 1;
        i += 1;
    }
    r
}

/// Looks for the find text in `content` modulo white space: the lines of
/// the normalised find text against each window of as many lines of
/// `content`, each normalised. Returns where the first matching window
/// starts and ends, in bytes, and its lines as they stand in `content`.
pub fn find_fuzzy_match(content: &str, find_text: &str) -> (r: Option<(usize, usize, String)>)
    requires
        byte_len(content@) < usize::MAX,
    ensures
        r is Some == fuzzy_start(content@, find_text@) is Some,
        r matches Some(m) ==> {
            &&& m.0 == fuzzy_start_byte(content@, find_text@)
            &&& m.1 == fuzzy_end_byte(content@, find_text@)
            &&& Some(m.2@) == fuzzy_text(content@, find_text@)
        },
{
    let text = chars_of(content);
    let cl = lines_of(&text);
    let fl = lines_of(&normalize_chars(&chars_of(find_text)));
    match fuzzy_line(&cl, &fl) {
        None => None,
        Some(s) => {
            proof {
                lemma_lines_span(content@);
                lemma_span_monotone(rows(cl@), s + fl.len(), cl.len() as int);
                lemma_span_monotone(rows(cl@), 0, s + fl.len());
            }
            let start = span_of(&cl, s);
            let through = span_of(&cl, s + fl.len());
            let end = if s + fl.len() == cl.len() {
                through - 1
            } else {
                through
            };
            let matched = window_text(&cl, s, s + fl.len());
            Some((start, end, string_of(&matched)))
        },
    }
}

/// The lines of `cl` from `from` up to `to`, joined by line feeds.
fn window_text(cl: &Vec<Vec<char>>, from: usize, to: usize) -> (r: Vec<char>)
    requires
        from <= to <= cl.len(),
    ensures
        r@ == join(rows(cl@).subrange(from as int, to as int), seq!['\n']),
{
    let mut part: Vec<Vec<char>> = Vec::new();
    let mut i: usize = from;
    assert(rows(part@) =~= rows(cl@).subrange(from as int, from as int));
    while i < to
        invariant
            from <= i <= to <= cl.len(),
            rows(part@) == rows(cl@).subrange(from as int, i as int),
        decreases to - i,
    {
        let line = subvec(&cl[i], 0, cl[i].len());
        proof {
            assert(line@ == cl@[i as int]@);
            lemma_rows_push(part@, line);
            assert(rows(part@).push(line@) =~= rows(cl@).subrange(from as int, i + 1));
        }
        part.push(line);
        i += 1;
    }
    let mut sep: Vec<char> = Vec::new();
    sep.push('\n');
    assert(sep@ =~= seq!['\n']);
    join_of(&part, &sep)
}

/// `line` holds `needle` once its white space is normalised; with
/// `fold_case`, once it is in lower case too.
pub open spec fn line_hit(line: Seq<char>, needle: Seq<char>, fold_case: bool) -> bool {
    if fold_case {
        contains(lowercased(normalized(line)), needle)
    } else {
        contains(normalized(line), needle)
    }
}

/// The first line at or after `from` that holds `needle`.
pub open spec fn first_hit(
    cl: Seq<Seq<char>>,
    needle: Seq<char>,
    fold_case: bool,
    from: int,
) -> Option<int>
    decreases cl.len() - from,
{
    if from < 0 || from >= cl.len() {
        None
    } else if line_hit(cl[from], needle, fold_case) {
        Some(from)
    } else {
        first_hit(cl, needle, fold_case, from + 1)
    }
}

fn first_hit_in(cl: &Vec<Vec<char>>, needle: &Vec<char>, fold_case: bool) -> (r: Option<usize>)
    ensures
        match r {
            Some(i) => first_hit(rows(cl@), needle@, fold_case, 0) == Some(i as int) && i
                < cl.len(),
            None => first_hit(rows(cl@), needle@, fold_case, 0) is None,
        },
{
    let mut i: usize = 0;
    while i < cl.len()
        invariant
            i <= cl.len(),
            first_hit(rows(cl@), needle@, fold_case, 0) == first_hit(
                rows(cl@),
                needle@,
                fold_case,
                i as int,
            ),
        decreases cl.len() - i,
    {
        let n = normalize_chars(&cl[i]);
        let hit = if fold_case {
            contains_text(&chars_of(to_lowercase(string_of(&n).as_str()).as_str()), needle)
        } else {
            contains_text(&n, needle)
        };
        if hit {
            return Some(i);
        }
        i += 1;
    }
    None
}

/// What is looked for when an edit finds nothing: the first line of the
/// find text, trimmed and normalised; nothing where that line has five
/// bytes or fewer.
pub open spec fn hint_needle(find_text: Seq<char>) -> Option<Seq<char>> {
    let ls = lines(find_text);
    if ls.len() == 0 {
        None
    } else {
        let first = trim(ls[0]);
        if byte_len(first) > 5 {
            Some(normalized(first))
        } else {
            None
        }
    }
}

/// The hint that ends the message of a failed edit: the first line of the
/// content that holds the needle once normalised, or else the first that
/// holds it once both are in lower case as well; each
/// with its number, from 1, and its first 80 characters in quotes. Empty
/// where nothing is looked for or nothing is found.
pub open spec fn failure_hint(content: Seq<char>, find_text: Seq<char>) -> Seq<char> {
    let cl = lines(content);
    match hint_needle(find_text) {
        None => Seq::empty(),
        Some(needle) => match first_hit(cl, needle, false, 0) {
            Some(i) => "\n\nPossible match at line "@ + decimal((i + 1) as nat) + ": "@
                + debug_quoted(prefix(cl[i], 80)),
            None => match first_hit(cl, lowercased(needle), true, 0) {
                Some(i) => "\n\nSimilar text at line "@ + decimal((i + 1) as nat)
                    + " (case mismatch?): "@ + debug_quoted(prefix(cl[i], 80)),
                None => Seq::empty(),
            },
        },
    }
}

/// The message of an edit that found nothing: the file, the first 100
/// characters of the find text in quotes, and the hint.
pub open spec fn failure_message(content: Seq<char>, e: EditView) -> Seq<char> {
    "FIND text not found in "@ + e.file_path + ".\nSearched for: "@ + debug_quoted(
        prefix(e.find, 100),
    ) + failure_hint(content, e.find)
}

/// The content with the lines matched modulo white space replaced: what
/// stands before the first matched line, the replacement, and what stands
/// behind the last matched line, from the terminator of that line on.
pub open spec fn window_replaced(
    content: Seq<char>,
    start: int,
    count: int,
    replacement: Seq<char>,
) -> Seq<char> {
    content.take(line_start(content, start)) + replacement + content.skip(
        line_end(content, start + count - 1),
    )
}

/// What applying an instruction to `content` gives. Where the find text
/// occurs, its first occurrence is replaced. Else, where it matches a
/// window of lines modulo white space, those lines are replaced where
/// they stand, and nothing else changes. Else the edit fails, with a
/// message.
pub open spec fn edit_result(content: Seq<char>, e: EditView) -> Result<Seq<char>, Seq<char>> {
    if contains(content, e.find) {
        Ok(replace_first(content, e.find, e.replace))
    } else {
        match fuzzy_start(content, e.find) {
            Some(s) => Ok(window_replaced(content, s, find_lines(e.find).len() as int, e.replace)),
            None => Err(failure_message(content, e)),
        }
    }
}

/// The view of a result of two strings.
pub open spec fn result_view(r: Result<String, String>) -> Result<Seq<char>, Seq<char>> {
    match r {
        Ok(s) => Ok(s@),
        Err(m) => Err(m@),
    }
}

/// The hint for a failed edit, from the line that was found: its number,
/// from 0, whether only the case-folded search found it, and its first 80
/// characters in quotes.
pub fn hint_text(line_index: usize, case_folded: bool, quoted_line: &str) -> (r: Vec<char>)
    requires
        line_index < usize::MAX,
    ensures
        r@ == (if case_folded {
            "\n\nSimilar text at line "@ + decimal((line_index + 1) as nat)
                + " (case mismatch?): "@ + quoted_line@
        } else {
            "\n\nPossible match at line "@ + decimal((line_index + 1) as nat) + ": "@
                + quoted_line@
        }),
{
    let mut r: Vec<char> = Vec::new();
    if case_folded {
        append_str(&mut r, "\n\nSimilar text at line ");
        append_decimal(&mut r, line_index + 1);
        append_str(&mut r, " (case mismatch?): ");
    } else {
        append_str(&mut r, "\n\nPossible match at line ");
        append_decimal(&mut r, line_index + 1);
        append_str(&mut r, ": ");
    }
    append_str(&mut r, quoted_line);
    assert(Seq::<char>::empty() + "\n\nSimilar text at line "@ =~= "\n\nSimilar text at line "@);
    assert(Seq::<char>::empty() + "\n\nPossible match at line "@
        =~= "\n\nPossible match at line "@);
    r
}

/// The message of a failed edit, from its parts: the file, the start of
/// the find text in quotes, and the hint.
pub fn not_found_message(file_path: &str, quoted_find: &str, hint: &Vec<char>) -> (r: String)
    ensures
        r@ == "FIND text not found in "@ + file_path@ + ".\nSearched for: "@ + quoted_find@
            + hint@,
{
    let mut r: Vec<char> = Vec::new();
    append_str(&mut r, "FIND text not found in ");
    append_str(&mut r, file_path);
    append_str(&mut r, ".\nSearched for: ");
    append_str(&mut r, quoted_find);
    append(&mut r, hint);
    assert(Seq::<char>::empty() + "FIND text not found in "@ =~= "FIND text not found in "@);
    string_of(&r)
}

fn hint_for(cl: &Vec<Vec<char>>, find_text: &Vec<char>, Ghost(content): Ghost<Seq<char>>) -> (r:
    Vec<char>)
    requires
        rows(cl@) == lines(content),
    ensures
        r@ == failure_hint(content, find_text@),
{
    let fl = lines_of(find_text);
    if fl.len() == 0 {
        return Vec::new();
    }
    assert(rows(fl@)[0] == fl@[0]@);
    let first = trim_of(&fl[0]);
    if !wider_than_five(&first) {
        return Vec::new();
    }
    let needle = normalize_chars(&first);
    match first_hit_in(cl, &needle, false) {
        Some(i) => {
            assert(rows(cl@)[i as int] == cl@[i as int]@);
            let shown = quoted(string_of(&prefix_of(&cl[i], 80)).as_str());
            hint_text(i, false, shown.as_str())
        },
        None => {
            let folded = chars_of(to_lowercase(string_of(&needle).as_str()).as_str());
            match first_hit_in(cl, &folded, true) {
                Some(i) => {
                    assert(rows(cl@)[i as int] == cl@[i as int]@);
                    let shown = quoted(string_of(&prefix_of(&cl[i], 80)).as_str());
                    hint_text(i, true, shown.as_str())
                },
                None => Vec::new(),
            }
        },
    }
}

/// Whether the text takes more than five bytes in UTF-8.
fn wider_than_five(v: &Vec<char>) -> (r: bool)
    ensures
        r == (byte_len(v@) > 5),
{
    if v.len() > 5 {
        proof {
            lemma_byte_len_at_least(v@);
        }
        true
    } else {
        proof {
            lemma_byte_len_at_most(v@);
        }
        byte_len_of(v) > 5
    }
}

proof fn lemma_byte_len_at_least(s: Seq<char>)
    ensures
        byte_len(s) >= s.len(),
    decreases s.len(),
{
    if s.len() > 0 {
        lemma_byte_len_at_least(s.drop_last());
    }
}

proof fn lemma_byte_len_at_most(s: Seq<char>)
    ensures
        byte_len(s) <= 4 * s.len(),
    decreases s.len(),
{
    if s.len() > 0 {
        lemma_byte_len_at_most(s.drop_last());
    }
}

/// Applies one instruction to a file's content.
///
/// Succeeds exactly where the find text occurs in the content or matches a
/// window of its lines modulo white space. Where neither holds the content
/// is left as it is and the error says what was looked for.
pub fn apply_edit(content: &str, edit: &EditInstruction) -> (r: Result<String, String>)
    ensures
        result_view(r) == edit_result(content@, edit@),
        r is Err <==> !contains(content@, edit.find@) && fuzzy_start(content@, edit.find@)
            is None,
{
    let text = chars_of(content);
    let find_text = chars_of(edit.find.as_str());
    let replacement = chars_of(edit.replace.as_str());
    if contains_text(&text, &find_text) {
        return Ok(string_of(&replace_first_in(&text, &find_text, &replacement)));
    }
    let cl = lines_of(&text);
    let fl = lines_of(&normalize_chars(&find_text));
    match fuzzy_line(&cl, &fl) {
        Some(s) => {
            let last: usize = s + fl.len() - 1;
            proof {
                lemma_line_bounds(content@, last as int);
                lemma_line_start_monotone(content@, s as int, last as int);
                assert(rows(cl@)[last as int] == cl@[last as int]@);
            }
            let from = line_start_of(&text, s);
            let to = line_start_of(&text, last) + cl[last].len();
            let mut out = subvec(&text, 0, from);
            append(&mut out, &replacement);
            append(&mut out, &subvec(&text, to, text.len()));
            assert(out@ =~= window_replaced(
                content@,
                s as int,
                find_lines(edit.find@).len() as int,
                edit.replace@,
            ));
            Ok(string_of(&out))
        },
        None => {
            let shown = quoted(string_of(&prefix_of(&find_text, 100)).as_str());
            let hint = hint_for(&cl, &find_text, Ghost(content@));
            Err(not_found_message(edit.file_path.as_str(), shown.as_str(), &hint))
        },
    }
}

/// What applying the instructions in order gives: the content after the
/// last of them, or the message of the first that fails.
pub open spec fn edits_result(content: Seq<char>, es: Seq<EditView>) -> Result<
    Seq<char>,
    Seq<char>,
>
    decreases es.len(),
{
    if es.len() == 0 {
        Ok(content)
    } else {
        match edit_result(content, es[0]) {
            Ok(next) => edits_result(next, es.drop_first()),
            Err(m) => Err(m),
        }
    }
}

/// Applies the instructions in order, each to what the one before gave.
pub fn apply_edits(content: &str, edits: &[&EditInstruction]) -> (r: Result<String, String>)
    ensures
        result_view(r) == edits_result(content@, edit_ref_views(edits@)),
{
    let mut result: String = content.to_owned();
    let mut i: usize = 0;
    assert(edit_ref_views(edits@).skip(0) =~= edit_ref_views(edits@));
    while i < edits.len()
        invariant
            i <= edits.len(),
            edits_result(content@, edit_ref_views(edits@)) == edits_result(
                result@,
                edit_ref_views(edits@).skip(i as int),
            ),
        decreases edits.len() - i,
    {
        let ghost rest = edit_ref_views(edits@).skip(i as int);
        assert(rest.drop_first() =~= edit_ref_views(edits@).skip(i + 1));
        assert(rest[0] == (*edits@[i as int])@);
        match apply_edit(result.as_str(), edits[i]) {
            Ok(next) => {
                result = next;
            },
            Err(m) => {
                return Err(m);
            },
        }
        i += 1;
    }
    Ok(result)
}

} // verus!
