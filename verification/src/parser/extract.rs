//! Reading files out of an answer.

use crate::parser::pattern::{
    all_captures, capture_all, capture_first, first_capture, group_opt, group_seq, Groups,
    GroupsView,
};
use crate::parser::{file_views, ExtractedFile, FileView};
use crate::seqs::lemma_filter_members;
use crate::text::{
    chars_of, has_prefix, is_whitespace, is_ws, join, join_of, lemma_rows_push, lines, lines_of,
    lower, rows, starts_with, string_of, subvec, to_lower, trim, trim_end, trim_of, trim_start,
    vec_eq,
};
use vstd::prelude::*;

verus! {

/// A path on a line of its own, a fenced block, and nothing else.
pub const HEADED_BLOCK: &'static str = r"(?s)^[a-zA-Z0-9_./-]+\.[a-zA-Z]+\s*\n```\w*\n([\s\S]*?)\n?```\s*$";

/// A fenced block and nothing else.
pub const FENCED_BLOCK: &'static str = r"(?s)^```\w*\n([\s\S]*?)\n?```\s*$";

/// The word that opens and closes a file in an answer.
pub const DELIMITER: &'static str = "~~~worksplit";

/// The marker of a fence.
pub const FENCE_MARKER: &'static str = "```";

/// A path on a line of its own, directly followed by a fenced block.
pub const HEADED_FILE: &'static str = r"(?m)^([a-zA-Z0-9_./-]+\.[a-zA-Z]+)\s*\n```\w*\n([\s\S]*?)\n```";

/// A fenced block.
pub const FENCE: &'static str = r"```\w*\n?([\s\S]*?)```";

/// The text without the fences that wrap the whole of it, given how the
/// two patterns of a wrapped text matched it: the first group of the match
/// of a headed block, or else of a fenced block, trimmed; the text itself
/// where neither matched with a group.
pub open spec fn unwrapped(
    trimmed: Seq<char>,
    headed: Option<GroupsView>,
    fenced: Option<GroupsView>,
) -> Seq<char> {
    if headed is Some && headed->0.first is Some {
        trim(headed->0.first->0)
    } else if fenced is Some && fenced->0.first is Some {
        trim(fenced->0.first->0)
    } else {
        trimmed
    }
}

/// The content without surrounding white space and without fences that
/// wrap the whole of it.
pub open spec fn without_fences(content: Seq<char>) -> Seq<char> {
    let t = trim(content);
    unwrapped(t, first_capture(HEADED_BLOCK@, t), first_capture(FENCED_BLOCK@, t))
}

/// Takes the fences off a text, given how the two patterns of a wrapped
/// text matched it.
pub fn unwrap_fences(trimmed: &str, headed: &Option<Groups>, fenced: &Option<Groups>) -> (r:
    String)
    ensures
        r@ == unwrapped(trimmed@, group_opt(*headed), group_opt(*fenced)),
{
    if let Some(g) = headed {
        if let Some(inner) = &g.first {
            return string_of(&trim_of(&chars_of(inner.as_str())));
        }
    }
    if let Some(g) = fenced {
        if let Some(inner) = &g.first {
            return string_of(&trim_of(&chars_of(inner.as_str())));
        }
    }
    trimmed.to_owned()
}

/// Takes off a content the white space around it and the fences that wrap
/// the whole of it.
pub fn strip_nested_fences(content: &str) -> (r: String)
    ensures
        r@ == without_fences(content@),
{
    let t = string_of(&trim_of(&chars_of(content)));
    let headed = capture_first(HEADED_BLOCK, t.as_str());
    let fenced = capture_first(FENCED_BLOCK, t.as_str());
    unwrap_fences(t.as_str(), &headed, &fenced)
}

/// A line that holds a delimiter and nothing else: trimmed and with its
/// ASCII letters in lower case, it starts with the delimiter word or is
/// three tildes.
pub open spec fn is_delimiter_line(line: Seq<char>) -> bool {
    let t = lower(trim(line));
    has_prefix(t, "~~~worksplit"@) || t == "~~~"@
}

/// The text without its delimiter lines, trimmed.
pub open spec fn without_delimiters(content: Seq<char>) -> Seq<char> {
    trim(join(lines(content).filter(|l: Seq<char>| !is_delimiter_line(l)), seq!['\n']))
}

/// Takes the delimiter lines out of a text and trims it.
pub fn strip_worksplit_delimiters(content: &str) -> (r: String)
    ensures
        r@ == without_delimiters(content@),
{
    let ls = lines_of(&chars_of(content));
    let word = chars_of("~~~worksplit");
    let tildes = chars_of("~~~");
    let ghost keep = |l: Seq<char>| !is_delimiter_line(l);
    let mut kept: Vec<Vec<char>> = Vec::new();
    let mut i: usize = 0;
    assert(rows(kept@) =~= rows(ls@).take(0).filter(keep));
    while i < ls.len()
        invariant
            i <= ls.len(),
            word@ == "~~~worksplit"@,
            tildes@ == "~~~"@,
            keep == (|l: Seq<char>| !is_delimiter_line(l)),
            rows(kept@) == rows(ls@).take(i as int).filter(keep),
        decreases ls.len() - i,
    {
        proof {
            reveal(Seq::filter);
            assert(rows(ls@).take(i + 1).drop_last() =~= rows(ls@).take(i as int));
            assert(rows(ls@).take(i + 1).last() == ls@[i as int]@);
        }
        let t = to_lower(&trim_of(&ls[i]));
        if !(starts_with(&t, &word) || vec_eq(&t, &tildes)) {
            let line = crate::text::subvec(&ls[i], 0, ls[i].len());
            proof {
                assert(line@ == ls@[i as int]@);
                lemma_rows_push(kept@, line);
            }
            kept.push(line);
        }
        i += 1;
    }
    assert(rows(ls@).take(ls.len() as int) == rows(ls@));
    let mut sep: Vec<char> = Vec::new();
    sep.push('\n');
    assert(sep@ =~= seq!['\n']);
    string_of(&trim_of(&join_of(&kept, &sep)))
}

/// The text of a group, trimmed; empty where the group holds nothing.
pub open spec fn group_text(g: Option<Seq<char>>) -> Seq<char> {
    match g {
        Some(s) => trim(s),
        None => Seq::empty(),
    }
}

/// A line that marks a fence: trimmed, it starts with the fence marker.
pub open spec fn is_fence_line(line: Seq<char>) -> bool {
    has_prefix(trim(line), FENCE_MARKER@)
}

/// The lines of a text that mark no fence.
pub open spec fn kept_lines(text: Seq<char>) -> Seq<Seq<char>> {
    lines(text).filter(|l: Seq<char>| !is_fence_line(l))
}

/// The text without the lines that mark a fence, trimmed.
pub open spec fn fence_free(text: Seq<char>) -> Seq<char> {
    trim(join(kept_lines(text), seq!['\n']))
}

/// None of the lines that the text without fences is made of marks a
/// fence.
pub proof fn lemma_kept_lines_mark_no_fence(text: Seq<char>)
    ensures
        forall|i: int|
            0 <= i < kept_lines(text).len() ==> !is_fence_line(#[trigger] kept_lines(text)[i]),
{
    let keep = |l: Seq<char>| !is_fence_line(l);
    lemma_filter_members(lines(text), keep);
    assert forall|i: int| 0 <= i < kept_lines(text).len() implies !is_fence_line(
        #[trigger] kept_lines(text)[i],
    ) by {
        assert(lines(text).filter(keep).contains(kept_lines(text)[i]));
    }
}

/// A line that closes a file: it starts with the delimiter, whatever the
/// case of its ASCII letters.
pub open spec fn is_closing_line(line: Seq<char>) -> bool {
    has_prefix(lower(line), DELIMITER@)
}

/// The number of characters before the first white space.
pub open spec fn word_len(s: Seq<char>) -> int
    decreases s.len(),
{
    if s.len() == 0 || is_ws(s[0]) {
        0
    } else {
        1 + word_len(s.drop_first())
    }
}

/// The text holds one word at most: trimmed, it holds no white space.
pub open spec fn at_most_one_word(s: Seq<char>) -> bool {
    word_len(trim(s)) == trim(s).len()
}

/// What a line opens. A line opens a file where, trimmed, it is the
/// delimiter, whatever the case of its ASCII letters, then a colon and a
/// path, if the file is to have one, then white space and a language, if
/// one is told, and nothing else. The path and the language are words
/// without white space. `Some(Some(path))` for a file with a path,
/// `Some(None)` for one without, `None` for a line that opens nothing.
pub open spec fn opening(line: Seq<char>) -> Option<Option<Seq<char>>> {
    let t = trim(line);
    let rest = t.skip(DELIMITER@.len() as int);
    if !has_prefix(lower(t), DELIMITER@) {
        None
    } else if rest.len() == 0 {
        Some(None)
    } else if rest[0] == ':' {
        let n = word_len(rest.skip(1));
        if n > 0 && at_most_one_word(rest.skip(1 + n)) {
            Some(Some(rest.subrange(1, 1 + n)))
        } else {
            None
        }
    } else if is_ws(rest[0]) && at_most_one_word(rest) {
        Some(None)
    } else {
        None
    }
}

/// The index of the first line that closes a file; the number of lines
/// where none does.
pub open spec fn closing_index(ls: Seq<Seq<char>>) -> int
    decreases ls.len(),
{
    if ls.len() == 0 || is_closing_line(ls[0]) {
        0
    } else {
        1 + closing_index(ls.drop_first())
    }
}

/// The content of a file from the lines between its delimiters: the lines
/// joined, without surrounding white space, without fences that wrap the
/// whole of it, and without the lines that mark a fence.
pub open spec fn block_content(body: Seq<Seq<char>>) -> Seq<char> {
    fence_free(without_fences(join(body, seq!['\n'])))
}

/// The files between delimiters, from the lines of an answer, in their
/// order. A line that opens a file is followed by the lines of the file,
/// up to the next line that closes one. A file with empty content is left
/// out, and so is what follows a line that opens a file that nothing
/// closes.
pub open spec fn delimited_files(ls: Seq<Seq<char>>) -> Seq<FileView>
    decreases ls.len(),
{
    if ls.len() == 0 {
        Seq::empty()
    } else if opening(ls[0]) is None {
        delimited_files(ls.drop_first())
    } else {
        let c = closing_index(ls.drop_first());
        if c < 0 || c >= ls.len() - 1 {
            Seq::empty()
        } else {
            let content = block_content(ls.subrange(1, 1 + c));
            let rest = delimited_files(ls.skip(c + 2));
            if content.len() > 0 {
                seq![FileView { path: opening(ls[0])->0, content }] + rest
            } else {
                rest
            }
        }
    }
}

/// The files under a path heading, from the matches of the heading
/// pattern: of each match the path of group 1 and the content of group 2,
/// both trimmed. A match with empty content or without path gives no file.
pub open spec fn headed_files(ms: Seq<GroupsView>) -> Seq<FileView>
    decreases ms.len(),
{
    if ms.len() == 0 {
        Seq::empty()
    } else {
        let before = headed_files(ms.drop_last());
        let content = group_text(ms.last().second);
        if content.len() > 0 && ms.last().first is Some {
            before.push(FileView { path: Some(trim(ms.last().first->0)), content })
        } else {
            before
        }
    }
}

/// The fenced blocks, from the matches of the fence pattern: of each match
/// the text of group 1, trimmed, unless it is empty.
pub open spec fn fenced_blocks(ms: Seq<GroupsView>) -> Seq<Seq<char>>
    decreases ms.len(),
{
    if ms.len() == 0 {
        Seq::empty()
    } else {
        let before = fenced_blocks(ms.drop_last());
        if ms.last().first is Some && trim(ms.last().first->0).len() > 0 {
            before.push(trim(ms.last().first->0))
        } else {
            before
        }
    }
}

/// The files of an answer, given the files found between delimiters, the
/// files found under path headings and the fenced blocks found. The first
/// of these that is not empty decides:
/// - the files between delimiters;
/// - the files under path headings;
/// - one file without path that holds the fenced blocks, an empty line
///   between each two;
/// - one file without path that holds the answer, trimmed, without its
///   delimiter lines.
pub open spec fn chosen_files(
    delimited: Seq<FileView>,
    headed: Seq<FileView>,
    blocks: Seq<Seq<char>>,
    response: Seq<char>,
) -> Seq<FileView> {
    if delimited.len() > 0 {
        delimited
    } else if headed.len() > 0 {
        headed
    } else if blocks.len() > 0 {
        seq![FileView { path: None, content: join(blocks, seq!['\n', '\n']) }]
    } else {
        seq![FileView { path: None, content: without_delimiters(trim(response)) }]
    }
}

/// The files that an answer holds.
pub open spec fn extracted_files(response: Seq<char>) -> Seq<FileView> {
    chosen_files(
        delimited_files(lines(response)),
        headed_files(all_captures(HEADED_FILE@, response)),
        fenced_blocks(all_captures(FENCE@, response)),
        response,
    )
}

proof fn lemma_word_len(s: Seq<char>, n: int)
    requires
        0 <= n <= s.len(),
        forall|j: int| 0 <= j < n ==> !is_ws(s[j]),
        n == s.len() || is_ws(s[n]),
    ensures
        word_len(s) == n,
    decreases s.len(),
{
    if n > 0 {
        lemma_word_len(s.drop_first(), n - 1);
    }
}

proof fn lemma_closing_index(ls: Seq<Seq<char>>, i: int)
    requires
        0 <= i <= ls.len(),
        forall|j: int| 0 <= j < i ==> !is_closing_line(ls[j]),
        i == ls.len() || is_closing_line(ls[i]),
    ensures
        closing_index(ls) == i,
    decreases ls.len(),
{
    if i > 0 {
        lemma_closing_index(ls.drop_first(), i - 1);
    }
}

/// The number of characters from `from` to the next white space.
fn word_len_from(v: &Vec<char>, from: usize) -> (n: usize)
    requires
        from <= v.len(),
    ensures
        n == word_len(v@.skip(from as int)),
        from + n <= v.len(),
{
    let mut i: usize = from;
    while i < v.len() && !is_whitespace(v[i])
        invariant
            from <= i <= v.len(),
            forall|j: int| from <= j < i ==> !is_ws(v@[j]),
        decreases v.len() - i,
    {
        i += 1;
    }
    proof {
        lemma_word_len(v@.skip(from as int), i - from);
    }
    i - from
}

fn holds_one_word_at_most(v: &Vec<char>, from: usize) -> (r: bool)
    requires
        from <= v.len(),
    ensures
        r == at_most_one_word(v@.skip(from as int)),
{
    let tail = subvec(v, from, v.len());
    assert(tail@ == v@.skip(from as int));
    let t = trim_of(&tail);
    assert(t@.skip(0) == t@);
    word_len_from(&t, 0) == t.len()
}

fn is_closing(line: &Vec<char>) -> (r: bool)
    ensures
        r == is_closing_line(line@),
{
    starts_with(&to_lower(line), &chars_of(DELIMITER))
}

fn is_fence(line: &Vec<char>) -> (r: bool)
    ensures
        r == is_fence_line(line@),
{
    starts_with(&trim_of(line), &chars_of(FENCE_MARKER))
}

/// What a line opens, and whether it opens anything.
fn read_opening(line: &Vec<char>) -> (r: Option<Option<String>>)
    ensures
        r is Some == opening(line@) is Some,
        r matches Some(p) ==> (p is Some == opening(line@)->0 is Some) && (p matches Some(path)
            ==> path@ == opening(line@)->0->0),
{
    let t = trim_of(line);
    let word = chars_of(DELIMITER);
    if !starts_with(&to_lower(&t), &word) {
        return None;
    }
    assert(lower(t@).len() == t@.len());
    let at: usize = word.len();
    if t.len() == at {
        return Some(None);
    }
    assert(t@.skip(at as int)[0] == t@[at as int]);
    if t[at] == ':' {
        assert(t@.skip(at as int).skip(1) == t@.skip(at + 1));
        let n = word_len_from(&t, at + 1);
        assert(t@.skip(at as int).skip(1 + n) == t@.skip(at + 1 + n));
        if n > 0 && holds_one_word_at_most(&t, at + 1 + n) {
            let path = subvec(&t, at + 1, at + 1 + n);
            assert(path@ == t@.skip(at as int).subrange(1, 1 + n));
            Some(Some(string_of(&path)))
        } else {
            None
        }
    } else if is_whitespace(t[at]) && holds_one_word_at_most(&t, at) {
        Some(None)
    } else {
        None
    }
}

/// The text without the lines that mark a fence, trimmed.
fn without_fence_lines(text: &Vec<char>) -> (r: Vec<char>)
    ensures
        r@ == fence_free(text@),
{
    let ls = lines_of(text);
    let ghost keep = |l: Seq<char>| !is_fence_line(l);
    let mut kept: Vec<Vec<char>> = Vec::new();
    let mut i: usize = 0;
    assert(rows(kept@) =~= rows(ls@).take(0).filter(keep));
    while i < ls.len()
        invariant
            i <= ls.len(),
            keep == (|l: Seq<char>| !is_fence_line(l)),
            rows(kept@) == rows(ls@).take(i as int).filter(keep),
        decreases ls.len() - i,
    {
        proof {
            reveal(Seq::filter);
            assert(rows(ls@).take(i + 1).drop_last() =~= rows(ls@).take(i as int));
            assert(rows(ls@).take(i + 1).last() == ls@[i as int]@);
        }
        if !is_fence(&ls[i]) {
            let line = subvec(&ls[i], 0, ls[i].len());
            proof {
                assert(line@ == ls@[i as int]@);
                lemma_rows_push(kept@, line);
            }
            kept.push(line);
        }
        i += 1;
    }
    assert(rows(ls@).take(ls.len() as int) == rows(ls@));
    let mut sep: Vec<char> = Vec::new();
    sep.push('\n');
    assert(sep@ =~= seq!['\n']);
    trim_of(&join_of(&kept, &sep))
}

/// The content of a file from the lines `from` up to `to`.
fn content_between(ls: &Vec<Vec<char>>, from: usize, to: usize) -> (r: String)
    requires
        from <= to <= ls.len(),
    ensures
        r@ == block_content(rows(ls@).subrange(from as int, to as int)),
{
    let mut body: Vec<Vec<char>> = Vec::new();
    let mut i: usize = from;
    assert(rows(body@) =~= rows(ls@).subrange(from as int, from as int));
    while i < to
        invariant
            from <= i <= to <= ls.len(),
            rows(body@) == rows(ls@).subrange(from as int, i as int),
        decreases to - i,
    {
        let line = subvec(&ls[i], 0, ls[i].len());
        proof {
            assert(line@ == ls@[i as int]@);
            lemma_rows_push(body@, line);
            assert(rows(body@).push(line@) =~= rows(ls@).subrange(from as int, i + 1));
        }
        body.push(line);
        i += 1;
    }
    let mut sep: Vec<char> = Vec::new();
    sep.push('\n');
    assert(sep@ =~= seq!['\n']);
    let unwrapped = strip_nested_fences(string_of(&join_of(&body, &sep)).as_str());
    string_of(&without_fence_lines(&chars_of(unwrapped.as_str())))
}

/// Reads the files between delimiters from the lines of an answer.
pub fn files_between_delimiters(ls: &Vec<Vec<char>>) -> (r: Vec<ExtractedFile>)
    ensures
        file_views(r@) == delimited_files(rows(ls@)),
{
    let ghost all = rows(ls@);
    let mut r: Vec<ExtractedFile> = Vec::new();
    let mut i: usize = 0;
    assert(all.skip(0) == all);
    assert(file_views(r@) + delimited_files(all) =~= delimited_files(all));
    while i < ls.len()
        invariant
            i <= ls.len(),
            all == rows(ls@),
            file_views(r@) + delimited_files(all.skip(i as int)) == delimited_files(all),
        decreases ls.len() - i,
    {
        let ghost rest = all.skip(i as int);
        assert(rest[0] == ls@[i as int]@);
        assert(rest.drop_first() == all.skip(i + 1));
        match read_opening(&ls[i]) {
            None => {
                i += 1;
            },
            Some(path) => {
                let mut c: usize = i + 1;
                while c < ls.len() && !is_closing(&ls[c])
                    invariant
                        i < c <= ls.len(),
                        all == rows(ls@),
                        forall|j: int| i < j < c ==> !is_closing_line(all[j]),
                    decreases ls.len() - c,
                {
                    c += 1;
                }
                proof {
                    assert forall|j: int| 0 <= j < c - i - 1 implies !is_closing_line(
                        rest.drop_first()[j],
                    ) by {
                        assert(rest.drop_first()[j] == all[i + 1 + j]);
                    }
                    if c < ls.len() {
                        assert(rest.drop_first()[c - i - 1] == all[c as int]);
                    }
                    lemma_closing_index(rest.drop_first(), c - i - 1);
                }
                if c == ls.len() {
                    assert(delimited_files(rest) =~= Seq::<FileView>::empty());
                    assert(file_views(r@) + Seq::<FileView>::empty() =~= file_views(r@));
                    return r;
                }
                assert(rest.subrange(1, c - i) =~= all.subrange(i + 1, c as int));
                assert(rest.skip(c - i + 1) =~= all.skip(c + 1));
                let content = content_between(ls, i + 1, c);
                if !content.as_str().is_empty() {
                    let file = ExtractedFile { path, content };
                    proof {
                        assert(file_views(r@.push(file)) =~= file_views(r@).push(file@));
                        assert(file_views(r@).push(file@) + delimited_files(all.skip(c + 1))
                            =~= file_views(r@) + (seq![file@] + delimited_files(all.skip(c + 1))));
                    }
                    r.push(file);
                }
                i = c + 1;
            },
        }
    }
    assert(delimited_files(all.skip(ls.len() as int)) =~= Seq::<FileView>::empty());
    assert(file_views(r@) + Seq::<FileView>::empty() =~= file_views(r@));
    r
}

fn files_under_headings(ms: &Vec<Groups>) -> (r: Vec<ExtractedFile>)
    ensures
        file_views(r@) == headed_files(group_seq(ms@)),
{
    let mut r: Vec<ExtractedFile> = Vec::new();
    let mut i: usize = 0;
    assert(file_views(r@) =~= headed_files(group_seq(ms@).take(0)));
    while i < ms.len()
        invariant
            i <= ms.len(),
            file_views(r@) == headed_files(group_seq(ms@).take(i as int)),
        decreases ms.len() - i,
    {
        assert(group_seq(ms@).take(i + 1).drop_last() =~= group_seq(ms@).take(i as int));
        assert(group_seq(ms@).take(i + 1).last() == ms@[i as int]@);
        let content = match &ms[i].second {
            Some(s) => trim_of(&chars_of(s.as_str())),
            None => Vec::new(),
        };
        if content.len() > 0 {
            if let Some(p) = &ms[i].first {
                let file = ExtractedFile {
                    path: Some(string_of(&trim_of(&chars_of(p.as_str())))),
                    content: string_of(&content),
                };
                assert(file_views(r@.push(file)) =~= file_views(r@).push(file@));
                r.push(file);
            }
        }
        i += 1;
    }
    assert(group_seq(ms@).take(ms.len() as int) =~= group_seq(ms@));
    r
}

fn blocks_in_fences(ms: &Vec<Groups>) -> (r: Vec<Vec<char>>)
    ensures
        rows(r@) == fenced_blocks(group_seq(ms@)),
{
    let mut r: Vec<Vec<char>> = Vec::new();
    let mut i: usize = 0;
    assert(rows(r@) =~= fenced_blocks(group_seq(ms@).take(0)));
    while i < ms.len()
        invariant
            i <= ms.len(),
            rows(r@) == fenced_blocks(group_seq(ms@).take(i as int)),
        decreases ms.len() - i,
    {
        assert(group_seq(ms@).take(i + 1).drop_last() =~= group_seq(ms@).take(i as int));
        assert(group_seq(ms@).take(i + 1).last() == ms@[i as int]@);
        if let Some(s) = &ms[i].first {
            let block = trim_of(&chars_of(s.as_str()));
            if block.len() > 0 {
                proof {
                    lemma_rows_push(r@, block);
                }
                r.push(block);
            }
        }
        i += 1;
    }
    assert(group_seq(ms@).take(ms.len() as int) =~= group_seq(ms@));
    r
}

/// Chooses the files of an answer from the files found between
/// delimiters and the matches of the heading pattern and the fence
/// pattern.
pub fn files_from_matches(
    delimited: Vec<ExtractedFile>,
    headed: &Vec<Groups>,
    fenced: &Vec<Groups>,
    response: &str,
) -> (r: Vec<ExtractedFile>)
    ensures
        file_views(r@) == chosen_files(
            file_views(delimited@),
            headed_files(group_seq(headed@)),
            fenced_blocks(group_seq(fenced@)),
            response@,
        ),
        r@.len() > 0,
{
    if delimited.len() > 0 {
        return delimited;
    }
    let files = files_under_headings(headed);
    if files.len() > 0 {
        return files;
    }
    let blocks = blocks_in_fences(fenced);
    let mut r: Vec<ExtractedFile> = Vec::new();
    if blocks.len() > 0 {
        let mut sep: Vec<char> = Vec::new();
        sep.push('\n');
        sep.push('\n');
        assert(sep@ =~= seq!['\n', '\n']);
        r.push(ExtractedFile::default_path(string_of(&join_of(&blocks, &sep))));
    } else {
        let trimmed = string_of(&trim_of(&chars_of(response)));
        r.push(ExtractedFile::default_path(strip_worksplit_delimiters(trimmed.as_str())));
    }
    assert(file_views(r@) =~= chosen_files(
        file_views(delimited@),
        headed_files(group_seq(headed@)),
        fenced_blocks(group_seq(fenced@)),
        response@,
    ));
    r
}

/// Reads the files out of an answer. There is always at least one.
pub fn extract_code_files(response: &str) -> (r: Vec<ExtractedFile>)
    ensures
        file_views(r@) == extracted_files(response@),
        r@.len() > 0,
{
    let delimited = files_between_delimiters(&lines_of(&chars_of(response)));
    let headed = capture_all(HEADED_FILE, response);
    let fenced = capture_all(FENCE, response);
    files_from_matches(delimited, &headed, &fenced, response)
}

/// A file in an answer as it is written: the lines before it, the line
/// that opens it, its lines, and the line that closes it.
pub struct WrittenFile {
    pub before: Seq<Seq<char>>,
    pub opener: Seq<char>,
    pub body: Seq<Seq<char>>,
    pub closer: Seq<char>,
}

impl WrittenFile {
    /// The lines of the file with those before it.
    pub open spec fn all_lines(self) -> Seq<Seq<char>> {
        self.before + seq![self.opener] + self.body + seq![self.closer]
    }

    /// The file is well written: no line before it opens a file, its
    /// opener does, none of its lines closes a file, its closer does, and
    /// its content is not empty.
    pub open spec fn well_written(self) -> bool {
        &&& forall|i: int| 0 <= i < self.before.len() ==> opening(#[trigger] self.before[i]) is None
        &&& opening(self.opener) is Some
        &&& forall|i: int| 0 <= i < self.body.len() ==> !is_closing_line(#[trigger] self.body[i])
        &&& is_closing_line(self.closer)
        &&& block_content(self.body).len() > 0
    }

    /// The file as it is read.
    pub open spec fn read(self) -> FileView {
        FileView { path: opening(self.opener)->0, content: block_content(self.body) }
    }
}

/// The lines of an answer that holds the given files, and after them the
/// lines `after`.
pub open spec fn answer_lines(files: Seq<WrittenFile>, after: Seq<Seq<char>>) -> Seq<Seq<char>>
    decreases files.len(),
{
    if files.len() == 0 {
        after
    } else {
        files[0].all_lines() + answer_lines(files.drop_first(), after)
    }
}

/// Lines that open no file are passed over.
pub proof fn lemma_prose_is_passed_over(before: Seq<Seq<char>>, rest: Seq<Seq<char>>)
    requires
        forall|i: int| 0 <= i < before.len() ==> opening(#[trigger] before[i]) is None,
    ensures
        delimited_files(before + rest) == delimited_files(rest),
    decreases before.len(),
{
    if before.len() == 0 {
        assert(before + rest =~= rest);
    } else {
        let all = before + rest;
        assert(all[0] == before[0]);
        assert(all.drop_first() =~= before.drop_first() + rest);
        assert forall|i: int| 0 <= i < before.drop_first().len() implies opening(
            #[trigger] before.drop_first()[i],
        ) is None by {
            assert(before.drop_first()[i] == before[i + 1]);
        }
        lemma_prose_is_passed_over(before.drop_first(), rest);
    }
}

/// A well-written file at the head of the lines is read, and the reading
/// goes on behind its closer.
pub proof fn lemma_file_is_read(f: WrittenFile, rest: Seq<Seq<char>>)
    requires
        f.well_written(),
    ensures
        delimited_files(f.all_lines() + rest) == seq![f.read()] + delimited_files(rest),
{
    let tail = seq![f.opener] + f.body + seq![f.closer] + rest;
    assert(f.all_lines() + rest =~= f.before + tail);
    lemma_prose_is_passed_over(f.before, tail);
    let behind = tail.drop_first();
    assert(behind =~= f.body + seq![f.closer] + rest);
    assert forall|j: int| 0 <= j < f.body.len() implies !is_closing_line(behind[j]) by {
        assert(behind[j] == f.body[j]);
    }
    assert(behind[f.body.len() as int] == f.closer);
    lemma_closing_index(behind, f.body.len() as int);
    assert(tail[0] == f.opener);
    assert(tail.subrange(1, 1 + f.body.len() as int) =~= f.body);
    assert(tail.skip(f.body.len() as int + 2) =~= rest);
}

/// An answer that holds well-written files between delimiters gives
/// each of them, in order, with the path that its opener tells and the
/// content of its lines, whatever stands around the files as long as it
/// opens no file.
pub proof fn lemma_written_files_are_read(files: Seq<WrittenFile>, after: Seq<Seq<char>>)
    requires
        forall|i: int| 0 <= i < files.len() ==> (#[trigger] files[i]).well_written(),
        forall|i: int| 0 <= i < after.len() ==> opening(#[trigger] after[i]) is None,
    ensures
        delimited_files(answer_lines(files, after)) == Seq::new(
            files.len(),
            |i: int| files[i].read(),
        ),
    decreases files.len(),
{
    if files.len() == 0 {
        lemma_prose_is_passed_over(after, Seq::empty());
        assert(after + Seq::<Seq<char>>::empty() =~= after);
    } else {
        let rest = answer_lines(files.drop_first(), after);
        assert(files[0].well_written());
        lemma_file_is_read(files[0], rest);
        assert forall|i: int| 0 <= i < files.drop_first().len() implies (
        #[trigger] files.drop_first()[i]).well_written() by {
            assert(files.drop_first()[i] == files[i + 1]);
        }
        lemma_written_files_are_read(files.drop_first(), after);
        assert(seq![files[0].read()] + Seq::new(
            files.drop_first().len(),
            |i: int| files.drop_first()[i].read(),
        ) =~= Seq::new(files.len(), |i: int| files[i].read()));
    }
}

/// N well-written files in an answer give exactly N files: the answer's
/// other parts do not count once a file stands between delimiters.
pub proof fn lemma_answer_gives_its_files(
    response: Seq<char>,
    files: Seq<WrittenFile>,
    after: Seq<Seq<char>>,
)
    requires
        files.len() > 0,
        lines(response) == answer_lines(files, after),
        forall|i: int| 0 <= i < files.len() ==> (#[trigger] files[i]).well_written(),
        forall|i: int| 0 <= i < after.len() ==> opening(#[trigger] after[i]) is None,
    ensures
        extracted_files(response) == Seq::new(files.len(), |i: int| files[i].read()),
{
    lemma_written_files_are_read(files, after);
}

/// The line that the delimiter, a colon and a path make opens a file with
/// that path, where the path is a word.
pub proof fn lemma_plain_opener(path: Seq<char>)
    requires
        path.len() > 0,
        forall|i: int| 0 <= i < path.len() ==> !is_ws(#[trigger] path[i]),
    ensures
        opening(DELIMITER@ + seq![':'] + path) == Some(Some(path)),
        is_closing_line(DELIMITER@),
{
    reveal_strlit("~~~worksplit");
    let d = DELIMITER@;
    let line = d + seq![':'] + path;
    assert(d =~= seq!['~', '~', '~', 'w', 'o', 'r', 'k', 's', 'p', 'l', 'i', 't']);
    assert(lower(d) =~= d);
    assert(lower(d).subrange(0, 12) =~= d);
    assert(line[0] == '~');
    assert(line.last() == path.last());
    assert(trim_start(line) == line);
    assert(trim_end(line) == line);
    assert(lower(line).subrange(0, 12) =~= d) by {
        assert forall|i: int| 0 <= i < 12 implies lower(line)[i] == d[i] by {
            assert(line[i] == d[i]);
        }
    }
    let rest = line.skip(12);
    assert(rest =~= seq![':'] + path);
    assert(rest.skip(1) =~= path);
    lemma_word_len(path, path.len() as int);
    assert(rest.skip(1 + path.len() as int) =~= Seq::<char>::empty());
    assert(trim(Seq::<char>::empty()) =~= Seq::<char>::empty());
    assert(rest.subrange(1, 1 + path.len() as int) =~= path);
}

/// A path as it is written behind the delimiter: a word that is not empty.
pub open spec fn is_path_word(path: Seq<char>) -> bool {
    path.len() > 0 && forall|i: int| 0 <= i < path.len() ==> !is_ws(#[trigger] path[i])
}

/// N files written in the plain form, each between a line of the
/// delimiter, a colon and its path and a line of the delimiter alone, give
/// exactly N files, each with its path, in the order in which they are
/// written. It holds where no line around the files opens one, no line of
/// a file closes one, and no file is empty once its fences are taken off.
pub proof fn lemma_plain_files_are_read(
    response: Seq<char>,
    files: Seq<WrittenFile>,
    paths: Seq<Seq<char>>,
    after: Seq<Seq<char>>,
)
    requires
        files.len() > 0,
        paths.len() == files.len(),
        lines(response) == answer_lines(files, after),
        forall|i: int| 0 <= i < after.len() ==> opening(#[trigger] after[i]) is None,
        forall|i: int|
            0 <= i < files.len() ==> {
                let f = #[trigger] files[i];
                &&& is_path_word(paths[i])
                &&& f.opener == DELIMITER@ + seq![':'] + paths[i]
                &&& f.closer == DELIMITER@
                &&& forall|j: int| 0 <= j < f.before.len() ==> opening(#[trigger] f.before[j]) is None
                &&& forall|j: int| 0 <= j < f.body.len() ==> !is_closing_line(#[trigger] f.body[j])
                &&& block_content(f.body).len() > 0
            },
    ensures
        extracted_files(response).len() == files.len(),
        forall|i: int|
            0 <= i < files.len() ==> (#[trigger] extracted_files(response)[i]) == (FileView {
                path: Some(paths[i]),
                content: block_content(files[i].body),
            }),
{
    assert forall|i: int| 0 <= i < files.len() implies (#[trigger] files[i]).well_written()
        && files[i].read() == (FileView {
        path: Some(paths[i]),
        content: block_content(files[i].body),
    }) by {
        lemma_plain_opener(paths[i]);
    }
    lemma_answer_gives_its_files(response, files, after);
}

/// The contents of the files, an empty line between each two.
pub open spec fn joined_contents(files: Seq<FileView>) -> Seq<char> {
    join(Seq::new(files.len(), |i: int| files[i].content), seq!['\n', '\n'])
}

/// Reads the code out of an answer: the contents of its files, an empty
/// line between each two.
pub fn extract_code(response: &str) -> (r: String)
    ensures
        r@ == joined_contents(extracted_files(response@)),
{
    let files = extract_code_files(response);
    let mut parts: Vec<Vec<char>> = Vec::new();
    let mut i: usize = 0;
    let ghost contents = Seq::new(file_views(files@).len(), |i: int| file_views(files@)[i].content);
    assert(rows(parts@) =~= contents.take(0));
    while i < files.len()
        invariant
            i <= files.len(),
            contents == Seq::new(
                file_views(files@).len(),
                |i: int| file_views(files@)[i].content,
            ),
            rows(parts@) == contents.take(i as int),
        decreases files.len() - i,
    {
        let c = chars_of(files[i].content.as_str());
        proof {
            lemma_rows_push(parts@, c);
            assert(rows(parts@).push(c@) =~= contents.take(i + 1));
        }
        parts.push(c);
        i += 1;
    }
    assert(contents.take(files.len() as int) =~= contents);
    let mut sep: Vec<char> = Vec::new();
    sep.push('\n');
    sep.push('\n');
    assert(sep@ =~= seq!['\n', '\n']);
    string_of(&join_of(&parts, &sep))
}

/// The number of lines of a text.
pub fn count_lines(content: &str) -> (r: usize)
    ensures
        r == lines(content@).len(),
{
    let ls = lines_of(&chars_of(content));
    assert(rows(ls@).len() == ls@.len());
    ls.len()
}

} // verus!
