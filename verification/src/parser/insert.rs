//! Inserting text into a file: after each occurrence of a pattern, and
//! as a new field into the literals of a struct.

use crate::parser::edit::accumulate;
use crate::parser::verdict::opt_text;
use crate::parser::{ParsedReplacePatterns, ReplacePatternInstruction, StructLiteralMatch};
use crate::text::{
    append, append_str, byte_len, byte_len_of, chars_of, debug_quoted, find_from, find_in_from,
    has_prefix, is_match_at, lemma_byte_len_split, lemma_find_from, lines, lines_of, lower,
    matches_at, prefix, prefix_of, quoted, rows, skip_ws_back, starts_with, string_of, subvec,
    to_lower, trim, trim_end, trim_of, vec_eq,
};
use vstd::prelude::*;

verus! {

/// An insert instruction as texts.
pub struct InsertView {
    pub after_pattern: Seq<char>,
    pub insert_text: Seq<char>,
    pub scope: Option<Seq<char>>,
}

impl View for ReplacePatternInstruction {
    type V = InsertView;

    open spec fn view(&self) -> InsertView {
        InsertView {
            after_pattern: self.after_pattern@,
            insert_text: self.insert_text@,
            scope: opt_text(self.scope),
        }
    }
}

/// The views of a sequence of insert instructions.
pub open spec fn insert_views(s: Seq<ReplacePatternInstruction>) -> Seq<InsertView> {
    Seq::new(s.len(), |i: int| s[i]@)
}

/// What has been read of an answer with insert instructions.
pub struct InsertScan {
    pub instructions: Seq<InsertView>,
    pub scope: Option<Seq<char>>,
    pub after: Seq<char>,
    pub insert: Seq<char>,
    pub in_after: bool,
    pub in_insert: bool,
}

/// The instructions with the one that is being read, where both its blocks
/// hold text: each block trimmed, under the scope named last.
pub open spec fn flushed(st: InsertScan) -> Seq<InsertView> {
    if st.after.len() > 0 && st.insert.len() > 0 {
        st.instructions.push(
            InsertView {
                after_pattern: trim(st.after),
                insert_text: trim(st.insert),
                scope: st.scope,
            },
        )
    } else {
        st.instructions
    }
}

/// The state after one more line. The markers are read without regard to
/// surrounding white space or to the case of their ASCII letters:
/// - `SCOPE:` and a text name the scope of the instructions that follow;
/// - `AFTER:` ends the instruction before it and opens the pattern block
///   of a new one;
/// - `INSERT:` opens the block of the text to insert;
/// - any other line joins the block that is open, if one is.
pub open spec fn insert_step(st: InsertScan, line: Seq<char>) -> InsertScan {
    let t = trim(line);
    let low = lower(t);
    if has_prefix(low, "scope:"@) {
        InsertScan { scope: Some(trim(t.skip(6))), ..st }
    } else if low == "after:"@ {
        InsertScan {
            instructions: flushed(st),
            after: Seq::empty(),
            insert: Seq::empty(),
            in_after: true,
            in_insert: false,
            ..st
        }
    } else if low == "insert:"@ {
        InsertScan { in_after: false, in_insert: true, ..st }
    } else if st.in_after {
        InsertScan { after: accumulate(st.after, line), ..st }
    } else if st.in_insert {
        InsertScan { insert: accumulate(st.insert, line), ..st }
    } else {
        st
    }
}

/// The state after the given lines, read in order.
pub open spec fn insert_scan(ls: Seq<Seq<char>>) -> InsertScan
    decreases ls.len(),
{
    if ls.len() == 0 {
        InsertScan {
            instructions: Seq::empty(),
            scope: None,
            after: Seq::empty(),
            insert: Seq::empty(),
            in_after: false,
            in_insert: false,
        }
    } else {
        insert_step(insert_scan(ls.drop_last()), ls.last())
    }
}

struct InsertReader {
    instructions: Vec<ReplacePatternInstruction>,
    scope: Option<String>,
    after: Vec<char>,
    insert: Vec<char>,
    in_after: bool,
    in_insert: bool,
}

impl InsertReader {
    spec fn state(&self) -> InsertScan {
        InsertScan {
            instructions: insert_views(self.instructions@),
            scope: opt_text(self.scope),
            after: self.after@,
            insert: self.insert@,
            in_after: self.in_after,
            in_insert: self.in_insert,
        }
    }

    fn flush(&mut self)
        ensures
            final(self).state() == (InsertScan {
                instructions: flushed(old(self).state()),
                ..old(self).state()
            }),
    {
        if self.after.len() > 0 && self.insert.len() > 0 {
            let ghost before = insert_views(self.instructions@);
            let item = ReplacePatternInstruction {
                after_pattern: string_of(&trim_of(&self.after)),
                insert_text: string_of(&trim_of(&self.insert)),
                scope: match &self.scope {
                    Some(s) => Some(s.clone()),
                    None => None,
                },
            };
            self.instructions.push(item);
            assert(insert_views(self.instructions@) =~= before.push(item@));
        }
    }

    fn step(&mut self, line: &Vec<char>)
        ensures
            final(self).state() == insert_step(old(self).state(), line@),
    {
        let t = trim_of(line);
        let low = to_lower(&t);
        proof {
            reveal_strlit("scope:");
        }
        if starts_with(&low, &chars_of("scope:")) {
            let rest = subvec(&t, 6, t.len());
            self.scope = Some(string_of(&trim_of(&rest)));
        } else if vec_eq(&low, &chars_of("after:")) {
            self.flush();
            self.in_after = true;
            self.in_insert = false;
            self.after = Vec::new();
            self.insert = Vec::new();
        } else if vec_eq(&low, &chars_of("insert:")) {
            self.in_after = false;
            self.in_insert = true;
        } else if self.in_after {
            if self.after.len() > 0 {
                self.after.push('\n');
            }
            append(&mut self.after, line);
            assert(self.after@ =~= accumulate(old(self).after@, line@));
        } else if self.in_insert {
            if self.insert.len() > 0 {
                self.insert.push('\n');
            }
            append(&mut self.insert, line);
            assert(self.insert@ =~= accumulate(old(self).insert@, line@));
        }
    }
}

/// Reads the insert instructions of an answer, and the scope named last.
pub fn parse_replace_pattern_instructions(response: &str) -> (r: ParsedReplacePatterns)
    ensures
        insert_views(r.instructions@) == flushed(insert_scan(lines(response@))),
        opt_text(r.scope) == insert_scan(lines(response@)).scope,
{
    let ls = lines_of(&chars_of(response));
    let mut reader = InsertReader {
        instructions: Vec::new(),
        scope: None,
        after: Vec::new(),
        insert: Vec::new(),
        in_after: false,
        in_insert: false,
    };
    assert(reader.state().instructions =~= Seq::<InsertView>::empty());
    assert(rows(ls@).take(0) =~= Seq::<Seq<char>>::empty());
    let mut i: usize = 0;
    while i < ls.len()
        invariant
            i <= ls.len(),
            reader.state() == insert_scan(rows(ls@).take(i as int)),
        decreases ls.len() - i,
    {
        assert(rows(ls@).take(i + 1).drop_last() == rows(ls@).take(i as int));
        assert(rows(ls@).take(i + 1).last() == ls@[i as int]@);
        reader.step(&ls[i]);
        i += 1;
    }
    assert(rows(ls@).take(ls.len() as int) == rows(ls@));
    reader.flush();
    ParsedReplacePatterns { instructions: reader.instructions, scope: reader.scope }
}

/// The last position at or before `at` where `n` lies in `h`.
pub open spec fn rfind_from(h: Seq<char>, n: Seq<char>, at: int) -> Option<int>
    decreases at + 1,
{
    if at < 0 {
        None
    } else if matches_at(h, n, at) {
        Some(at)
    } else {
        rfind_from(h, n, at - 1)
    }
}

/// The last position where `n` lies in `h`.
pub open spec fn rfind(h: Seq<char>, n: Seq<char>) -> Option<int> {
    rfind_from(h, n, h.len() - n.len())
}

/// How often `c` occurs in `s`.
pub open spec fn count_of(s: Seq<char>, c: char) -> nat
    decreases s.len(),
{
    if s.len() == 0 {
        0
    } else {
        count_of(s.drop_last(), c) + (if s.last() == c {
            1nat
        } else {
            0nat
        })
    }
}

/// The text ends within a block that `scope` opens: behind the last
/// occurrence of `scope` more braces open than close.
pub open spec fn in_scope(before: Seq<char>, scope: Seq<char>) -> bool {
    match rfind(before, scope) {
        Some(p) => count_of(before.skip(p), '{') > count_of(before.skip(p), '}'),
        None => false,
    }
}

fn rfind_in(h: &Vec<char>, end: usize, n: &Vec<char>) -> (r: Option<usize>)
    requires
        end <= h.len(),
    ensures
        match r {
            Some(p) => rfind(h@.take(end as int), n@) == Some(p as int) && p <= end,
            None => rfind(h@.take(end as int), n@) is None,
        },
{
    let ghost text = h@.take(end as int);
    if n.len() > end {
        assert(rfind_from(text, n@, text.len() - n@.len()) is None);
        return None;
    }
    let mut at: usize = end - n.len();
    loop
        invariant
            at + n.len() <= end <= h.len(),
            text == h@.take(end as int),
            rfind(text, n@) == rfind_from(text, n@, at as int),
        decreases at,
    {
        let hit = is_match_at(h, n, at);
        proof {
            if at + n.len() <= end {
                assert(h@.subrange(at as int, at + n.len()) =~= text.subrange(
                    at as int,
                    at + n.len(),
                ));
            }
            assert(hit == matches_at(text, n@, at as int));
        }
        if hit {
            return Some(at);
        }
        if at == 0 {
            assert(rfind_from(text, n@, -1) is None);
            return None;
        }
        at -= 1;
    }
}

fn count_in(h: &Vec<char>, from: usize, to: usize, c: char) -> (r: usize)
    requires
        from <= to <= h.len(),
    ensures
        r == count_of(h@.subrange(from as int, to as int), c),
        r <= to - from,
{
    let mut r: usize = 0;
    let mut i: usize = from;
    assert(h@.subrange(from as int, from as int) =~= Seq::<char>::empty());
    while i < to
        invariant
            from <= i <= to <= h.len(),
            r == count_of(h@.subrange(from as int, i as int), c),
            r <= i - from,
        decreases to - i,
    {
        assert(h@.subrange(from as int, i + 1).drop_last() =~= h@.subrange(from as int, i as int));
        if h[i] == c {
            r += 1;
        }
        i += 1;
    }
    r
}

/// Whether the text before `end` ends within a block that `scope` opens.
pub fn is_in_scope(text: &Vec<char>, end: usize, scope: &Vec<char>) -> (r: bool)
    requires
        end <= text.len(),
    ensures
        r == in_scope(text@.take(end as int), scope@),
{
    match rfind_in(text, end, scope) {
        Some(p) => {
            assert(text@.take(end as int).skip(p as int) =~= text@.subrange(p as int, end as int));
            count_in(text, p, end, '{') > count_in(text, p, end, '}')
        },
        None => false,
    }
}

/// An occurrence at `pos` counts: no scope is asked for, or the text
/// before it ends within the scope.
pub open spec fn counts(text: Seq<char>, pos: int, scope: Option<Seq<char>>) -> bool {
    match scope {
        Some(s) => in_scope(text.take(pos), s),
        None => true,
    }
}

/// The text from `from` on, with `insert` behind each occurrence of
/// `pattern` that counts; and whether any counts. The occurrences are
/// found from left to right, none overlapping another. An empty pattern
/// occurs nowhere.
pub open spec fn inserted_from(
    text: Seq<char>,
    pattern: Seq<char>,
    insert: Seq<char>,
    scope: Option<Seq<char>>,
    from: int,
) -> (Seq<char>, bool)
    decreases text.len() - from,
{
    if from < 0 || from > text.len() || pattern.len() == 0 {
        (text.skip(from), false)
    } else {
        match find_from(text, pattern, from) {
            Some(p) => {
                proof {
                    lemma_find_from(text, pattern, from);
                }
                let rest = inserted_from(text, pattern, insert, scope, p + pattern.len());
                if counts(text, p, scope) {
                    (text.subrange(from, p + pattern.len()) + insert + rest.0, true)
                } else {
                    (text.subrange(from, p + pattern.len()) + rest.0, rest.1)
                }
            },
            None => (text.skip(from), false),
        }
    }
}

/// What the error says that a pattern is not found, from the start of the
/// pattern in quotes.
pub fn pattern_missing(quoted_pattern: &str) -> (r: String)
    ensures
        r@ == "AFTER pattern not found: "@ + quoted_pattern@,
{
    let mut out: Vec<char> = Vec::new();
    append_str(&mut out, "AFTER pattern not found: ");
    append_str(&mut out, quoted_pattern);
    assert(out@ =~= "AFTER pattern not found: "@ + quoted_pattern@);
    string_of(&out)
}

/// What the instructions make of a text, applied in order, each to what
/// the one before gave: the text, or what the error says of the first
/// instruction whose pattern occurs nowhere where it counts.
pub open spec fn patterns_applied(text: Seq<char>, instructions: Seq<InsertView>) -> Result<
    Seq<char>,
    Seq<char>,
>
    decreases instructions.len(),
{
    if instructions.len() == 0 {
        Ok(text)
    } else {
        let i = instructions[0];
        let r = inserted_from(text, i.after_pattern, i.insert_text, i.scope, 0);
        if r.1 {
            patterns_applied(r.0, instructions.drop_first())
        } else {
            Err("AFTER pattern not found: "@ + debug_quoted(prefix(i.after_pattern, 50)))
        }
    }
}

fn insert_after(text: &Vec<char>, pattern: &Vec<char>, insert: &Vec<char>, scope: &Option<Vec<char>>) -> (r:
    (Vec<char>, bool))
    ensures
        (r.0@, r.1) == inserted_from(
            text@,
            pattern@,
            insert@,
            match scope {
                Some(s) => Some(s@),
                None => None,
            },
            0,
        ),
{
    let ghost sc: Option<Seq<char>> = match scope {
        Some(s) => Some(s@),
        None => None,
    };
    let mut out: Vec<char> = Vec::new();
    let mut found = false;
    if pattern.len() == 0 {
        assert(text@.subrange(0, text.len() as int) == text@.skip(0));
        return (subvec(text, 0, text.len()), false);
    }
    let mut from: usize = 0;
    loop
        invariant
            from <= text.len(),
            pattern.len() > 0,
            sc == (match scope {
                Some(s) => Some(s@),
                None => None::<Seq<char>>,
            }),
            inserted_from(text@, pattern@, insert@, sc, 0).0 == out@ + inserted_from(
                text@,
                pattern@,
                insert@,
                sc,
                from as int,
            ).0,
            inserted_from(text@, pattern@, insert@, sc, 0).1 == (found || inserted_from(
                text@,
                pattern@,
                insert@,
                sc,
                from as int,
            ).1),
        decreases text.len() - from,
    {
        proof {
            lemma_find_from(text@, pattern@, from as int);
        }
        match find_in_from(text, pattern, from) {
            Some(p) => {
                let end = p + pattern.len();
                let ghost before = out@;
                let ghost rest = inserted_from(text@, pattern@, insert@, sc, end as int);
                let part = subvec(text, from, end);
                append(&mut out, &part);
                let hit = match scope {
                    Some(s) => is_in_scope(text, p, s),
                    None => true,
                };
                assert(hit == counts(text@, p as int, sc));
                if hit {
                    found = true;
                    append(&mut out, insert);
                    assert(out@ + rest.0 =~= before + (text@.subrange(from as int, end as int)
                        + insert@ + rest.0));
                } else {
                    assert(out@ + rest.0 =~= before + (text@.subrange(from as int, end as int)
                        + rest.0));
                }
                from = end;
            },
            None => {
                let rest = subvec(text, from, text.len());
                append(&mut out, &rest);
                assert(text@.subrange(from as int, text.len() as int) == text@.skip(from as int));
                return (out, found);
            },
        }
    }
}

/// The view of a result of two strings.
pub open spec fn text_result(r: Result<String, String>) -> Result<Seq<char>, Seq<char>> {
    match r {
        Ok(s) => Ok(s@),
        Err(m) => Err(m@),
    }
}

/// Applies insert instructions to a text, in order: the text to insert is
/// put behind each occurrence of the pattern that counts. Fails at the
/// first instruction whose pattern occurs nowhere where it counts.
pub fn apply_replace_patterns(content: &str, patterns: &ParsedReplacePatterns) -> (r: Result<
    String,
    String,
>)
    ensures
        text_result(r) == patterns_applied(content@, insert_views(patterns.instructions@)),
{
    let mut text = chars_of(content);
    let mut i: usize = 0;
    let ghost all = insert_views(patterns.instructions@);
    assert(all.skip(0) =~= all);
    while i < patterns.instructions.len()
        invariant
            i <= patterns.instructions.len(),
            all == insert_views(patterns.instructions@),
            patterns_applied(content@, all) == patterns_applied(text@, all.skip(i as int)),
        decreases patterns.instructions.len() - i,
    {
        assert(all.skip(i as int).drop_first() =~= all.skip(i + 1));
        assert(all.skip(i as int)[0] == patterns.instructions@[i as int]@);
        let item = &patterns.instructions[i];
        let pattern = chars_of(item.after_pattern.as_str());
        let scope = match &item.scope {
            Some(s) => Some(chars_of(s.as_str())),
            None => None,
        };
        let (next, found) = insert_after(
            &text,
            &pattern,
            &chars_of(item.insert_text.as_str()),
            &scope,
        );
        if !found {
            let shown = quoted(string_of(&prefix_of(&pattern, 50)).as_str());
            return Err(pattern_missing(shown.as_str()));
        }
        text = next;
        i += 1;
    }
    Ok(string_of(&text))
}

/// Where a struct literal stands in a text, in characters: where the
/// struct's name starts, where the literal ends behind its closing brace,
/// and where its last field ends.
pub struct LiteralSpan {
    pub start: int,
    pub end: int,
    pub last_field_end: int,
}

/// Where the block ends that is open at `i` at the given depth: behind the
/// brace that closes depth 1; with the end of the last field, which is
/// behind the last comma at depth 1 before it, or `last` where there is
/// none. Nothing where the block does not end.
pub open spec fn block_end(s: Seq<char>, i: int, depth: nat, last: int) -> Option<(int, int)>
    decreases s.len() - i,
{
    if i < 0 || i >= s.len() || depth == 0 {
        None
    } else if s[i] == '{' {
        block_end(s, i + 1, depth + 1, last)
    } else if s[i] == '}' {
        if depth == 1 {
            Some((i + 1, last))
        } else {
            block_end(s, i + 1, (depth - 1) as nat, last)
        }
    } else if s[i] == ',' && depth == 1 {
        block_end(s, i + 1, depth, i + 1)
    } else {
        block_end(s, i + 1, depth, last)
    }
}

/// The literals that open with `opening` from `from` on: each found behind
/// the end of the one before; an opening whose block does not end is passed
/// over.
pub open spec fn literals_from(text: Seq<char>, opening: Seq<char>, from: int) -> Seq<LiteralSpan>
    decreases text.len() - from,
{
    if from < 0 || from > text.len() || opening.len() == 0 {
        Seq::empty()
    } else {
        match find_from(text, opening, from) {
            Some(start) => {
                proof {
                    lemma_find_from(text, opening, from);
                }
                let open = start + opening.len();
                match block_end(text, open, 1, open) {
                    Some(e) => {
                        proof {
                            lemma_block_end(text, open, 1, open);
                        }
                        seq![LiteralSpan { start, end: e.0, last_field_end: e.1 }] + literals_from(
                            text,
                            opening,
                            e.0,
                        )
                    },
                    None => literals_from(text, opening, open),
                }
            },
            None => Seq::empty(),
        }
    }
}

/// A block ends behind where it is open, and within the text.
pub proof fn lemma_block_end(s: Seq<char>, i: int, depth: nat, last: int)
    requires
        0 <= i,
    ensures
        block_end(s, i, depth, last) matches Some(e) ==> i < e.0 <= s.len(),
    decreases s.len() - i,
{
    if i < 0 || i >= s.len() || depth == 0 {
    } else if s[i] == '{' {
        lemma_block_end(s, i + 1, depth + 1, last);
    } else if s[i] == '}' {
        if depth != 1 {
            lemma_block_end(s, i + 1, (depth - 1) as nat, last);
        }
    } else if s[i] == ',' && depth == 1 {
        lemma_block_end(s, i + 1, depth, i + 1);
    } else {
        lemma_block_end(s, i + 1, depth, last);
    }
}

/// What opens a literal of the struct: its name, a space and a brace.
pub open spec fn literal_opening(struct_name: Seq<char>) -> Seq<char> {
    struct_name + " {"@
}

/// Finds where the block ends that is open at `from`.
pub fn find_matching_brace(text: &Vec<char>, from: usize) -> (r: Option<(usize, usize)>)
    requires
        from <= text.len(),
    ensures
        match r {
            Some(e) => block_end(text@, from as int, 1, from as int) == Some(
                (e.0 as int, e.1 as int),
            ) && from < e.0 <= text.len() && from <= e.1 <= text.len(),
            None => block_end(text@, from as int, 1, from as int) is None,
        },
{
    let mut nested: usize = 0;
    let mut last: usize = from;
    let mut i: usize = from;
    while i < text.len()
        invariant
            from <= i <= text.len(),
            from <= last <= i,
            nested <= i - from,
            block_end(text@, from as int, 1, from as int) == block_end(
                text@,
                i as int,
                (nested + 1) as nat,
                last as int,
            ),
        decreases text.len() - i,
    {
        let c = text[i];
        if c == '{' {
            nested += 1;
        } else if c == '}' {
            if nested == 0 {
                return Some((i + 1, last));
            }
            nested -= 1;
        } else if c == ',' && nested == 0 {
            last = i + 1;
        }
        i += 1;
    }
    None
}

/// A literal's place in characters.
struct Span {
    start: usize,
    end: usize,
    last_field_end: usize,
}

spec fn span_views(v: Seq<Span>) -> Seq<LiteralSpan> {
    Seq::new(
        v.len(),
        |i: int|
            LiteralSpan {
                start: v[i].start as int,
                end: v[i].end as int,
                last_field_end: v[i].last_field_end as int,
            },
    )
}

fn find_spans(text: &Vec<char>, opening: &Vec<char>) -> (r: Vec<Span>)
    ensures
        span_views(r@) == literals_from(text@, opening@, 0),
        forall|k: int|
            0 <= k < r@.len() ==> (#[trigger] r@[k]).start < r@[k].end <= text.len()
                && r@[k].last_field_end <= text.len(),
        forall|j: int, k: int| 0 <= j < k < r@.len() ==> (#[trigger] r@[j]).end <= (#[trigger] r@[k]).start,
{
    let mut r: Vec<Span> = Vec::new();
    if opening.len() == 0 {
        assert(span_views(r@) =~= literals_from(text@, opening@, 0));
        return r;
    }
    let mut from: usize = 0;
    assert(span_views(r@) =~= Seq::<LiteralSpan>::empty());
    loop
        invariant
            from <= text.len(),
            opening.len() > 0,
            literals_from(text@, opening@, 0) == span_views(r@) + literals_from(
                text@,
                opening@,
                from as int,
            ),
            forall|k: int|
                0 <= k < r@.len() ==> (#[trigger] r@[k]).start < r@[k].end <= from
                    && r@[k].last_field_end <= text.len(),
            forall|j: int, k: int|
                0 <= j < k < r@.len() ==> (#[trigger] r@[j]).end <= (#[trigger] r@[k]).start,
        decreases text.len() - from,
    {
        proof {
            lemma_find_from(text@, opening@, from as int);
        }
        match find_in_from(text, opening, from) {
            None => {
                assert(span_views(r@) + Seq::<LiteralSpan>::empty() =~= span_views(r@));
                return r;
            },
            Some(start) => {
                let open = start + opening.len();
                match find_matching_brace(text, open) {
                    Some(e) => {
                        let ghost before = span_views(r@);
                        let span = Span { start, end: e.0, last_field_end: e.1 };
                        r.push(span);
                        assert(span_views(r@) =~= before.push(
                            LiteralSpan {
                                start: start as int,
                                end: e.0 as int,
                                last_field_end: e.1 as int,
                            },
                        ));
                        assert(span_views(r@) + literals_from(text@, opening@, e.0 as int)
                            =~= before + (seq![
                            LiteralSpan {
                                start: start as int,
                                end: e.0 as int,
                                last_field_end: e.1 as int,
                            },
                        ] + literals_from(text@, opening@, e.0 as int)));
                        from = e.0;
                    },
                    None => {
                        from = open;
                    },
                }
            },
        }
    }
}

fn opening_of(struct_name: &str) -> (r: Vec<char>)
    ensures
        r@ == literal_opening(struct_name@),
        r@.len() > 0,
{
    let mut r = chars_of(struct_name);
    append_str(&mut r, " {");
    proof {
        reveal_strlit(" {");
    }
    r
}

/// The literals of a struct in a text: where each stands, in bytes, and
/// one more than the number of lines before it, a begun line counted as a
/// line.
pub open spec fn literal_matches(text: Seq<char>, spans: Seq<LiteralSpan>) -> Seq<StructLiteralMatch> {
    Seq::new(
        spans.len(),
        |i: int|
            StructLiteralMatch {
                start: byte_len(text.take(spans[i].start)) as usize,
                end: byte_len(text.take(spans[i].end)) as usize,
                last_field_end: byte_len(text.take(spans[i].last_field_end)) as usize,
                line_number: (lines(text.take(spans[i].start)).len() + 1) as usize,
            },
    )
}

/// Finds the literals of a struct in a source text: each opens with the
/// struct's name, a space and a brace, and ends with the brace that closes
/// it; they are found from left to right, each behind the end of the one
/// before.
pub fn find_struct_literals(content: &str, struct_name: &str) -> (r: Vec<StructLiteralMatch>)
    requires
        byte_len(content@) < usize::MAX,
    ensures
        r@ == literal_matches(
            content@,
            literals_from(content@, literal_opening(struct_name@), 0),
        ),
{
    let text = chars_of(content);
    let spans = find_spans(&text, &opening_of(struct_name));
    let ghost all = span_views(spans@);
    let mut r: Vec<StructLiteralMatch> = Vec::new();
    let mut i: usize = 0;
    assert(r@ =~= literal_matches(text@, all).take(0));
    while i < spans.len()
        invariant
            i <= spans.len(),
            text@ == content@,
            all == span_views(spans@),
            byte_len(text@) < usize::MAX,
            forall|k: int|
                0 <= k < spans@.len() ==> (#[trigger] spans@[k]).start < spans@[k].end
                    <= text.len() && spans@[k].last_field_end <= text.len(),
            r@ == literal_matches(text@, all).take(i as int),
        decreases spans.len() - i,
    {
        let s = &spans[i];
        proof {
            lemma_byte_len_split(text@, s.start as int);
            lemma_byte_len_split(text@, s.end as int);
            lemma_byte_len_split(text@, s.last_field_end as int);
        }
        let head = subvec(&text, 0, s.start);
        assert(head@ == text@.take(s.start as int));
        let before_lines = lines_of(&head);
        assert(rows(before_lines@).len() == before_lines@.len());
        proof {
            crate::parser::edit::lemma_lines_span(head@);
            lemma_span_counts(lines(head@), lines(head@).len() as int);
        }
        let m = StructLiteralMatch {
            start: byte_len_of(&head),
            end: byte_len_of(&subvec(&text, 0, s.end)),
            last_field_end: byte_len_of(&subvec(&text, 0, s.last_field_end)),
            line_number: before_lines.len() + 1,
        };
        r.push(m);
        assert(r@ =~= literal_matches(text@, all).take(i + 1));
        i += 1;
    }
    assert(literal_matches(text@, all).take(spans.len() as int) =~= literal_matches(text@, all));
    r
}

/// There are no more lines than their bytes, counting a terminator each.
proof fn lemma_span_counts(ls: Seq<Seq<char>>, k: int)
    requires
        0 <= k <= ls.len(),
    ensures
        k <= crate::parser::edit::lines_span(ls, k),
    decreases k,
{
    if k > 0 {
        lemma_span_counts(ls, k - 1);
    }
}

/// What is put directly before the closing brace of a literal, which
/// stands behind `before`: the field on a line of its own, behind a comma
/// unless the text before the brace, its trailing white space aside, ends
/// in a comma or in the opening brace.
pub open spec fn field_insertion(before: Seq<char>, field: Seq<char>) -> Seq<char> {
    let t = trim_end(before);
    if t.len() > 0 && (t.last() == ',' || t.last() == '{') {
        "\n            "@ + field
    } else {
        ",\n            "@ + field
    }
}

/// The text with the field put into the literals, the last literal first.
pub open spec fn fields_inserted(text: Seq<char>, spans: Seq<LiteralSpan>, field: Seq<char>) -> Seq<
    char,
>
    decreases spans.len(),
{
    if spans.len() == 0 {
        text
    } else {
        let at = spans.last().end - 1;
        fields_inserted(
            text.take(at) + field_insertion(text.take(at), field) + text.skip(at),
            spans.drop_last(),
            field,
        )
    }
}

/// What putting a field into the literals of a struct gives: the text
/// with the field in each literal, or what the error says that the text
/// holds no literal of the struct.
pub open spec fn field_added(content: Seq<char>, struct_name: Seq<char>, field: Seq<char>) -> Result<
    Seq<char>,
    Seq<char>,
> {
    let spans = literals_from(content, literal_opening(struct_name), 0);
    if spans.len() == 0 {
        Err("No "@ + struct_name + " struct literals found"@)
    } else {
        Ok(fields_inserted(content, spans, field))
    }
}

/// Puts a new field into every literal of a struct in a source text, as
/// its last field.
pub fn insert_field_into_struct_literals(content: &str, struct_name: &str, new_field: &str) -> (r:
    Result<String, String>)
    ensures
        text_result(r) == field_added(content@, struct_name@, new_field@),
{
    let source = chars_of(content);
    let spans = find_spans(&source, &opening_of(struct_name));
    if spans.len() == 0 {
        let mut out: Vec<char> = Vec::new();
        append_str(&mut out, "No ");
        append_str(&mut out, struct_name);
        append_str(&mut out, " struct literals found");
        assert(out@ =~= "No "@ + struct_name@ + " struct literals found"@);
        return Err(string_of(&out));
    }
    let field = chars_of(new_field);
    let ghost all = span_views(spans@);
    let mut text = source;
    let mut k: usize = spans.len();
    assert(all.take(k as int) =~= all);
    while k > 0
        invariant
            k <= spans.len(),
            all == span_views(spans@),
            field@ == new_field@,
            fields_inserted(content@, all, new_field@) == fields_inserted(
                text@,
                all.take(k as int),
                new_field@,
            ),
            forall|j: int|
                0 <= j < spans@.len() ==> (#[trigger] spans@[j]).start < spans@[j].end,
            forall|i: int, j: int|
                0 <= i < j < spans@.len() ==> (#[trigger] spans@[i]).end <= (
                #[trigger] spans@[j]).start,
            k > 0 ==> spans@[k - 1].end <= text.len(),
        decreases k,
    {
        k -= 1;
        let at = spans[k].end - 1;
        proof {
            assert(all.take(k + 1).last() == all[k as int]);
            assert(all.take(k + 1).drop_last() =~= all.take(k as int));
        }
        let end = skip_ws_back(&text, 0, at);
        assert(text@.subrange(0, at as int) == text@.take(at as int));
        assert(text@.subrange(0, end as int) == trim_end(text@.take(at as int)));
        let plain = end > 0 && (text[end - 1] == ',' || text[end - 1] == '{');
        assert(end > 0 ==> text@.subrange(0, end as int).last() == text@[end - 1]);
        let mut next = subvec(&text, 0, at);
        if plain {
            append_str(&mut next, "\n            ");
        } else {
            append_str(&mut next, ",\n            ");
        }
        append(&mut next, &field);
        let tail = subvec(&text, at, text.len());
        append(&mut next, &tail);
        assert(text@.subrange(at as int, text.len() as int) == text@.skip(at as int));
        assert(next@ =~= text@.take(at as int) + field_insertion(text@.take(at as int), field@)
            + text@.skip(at as int));
        text = next;
    }
    assert(all.take(0) =~= Seq::<LiteralSpan>::empty());
    Ok(string_of(&text))
}

} // verus!
