//! Reading the verdict of a verification: one of four tiers, and the
//! reason where one is given. An unclear answer counts as a hard failure.

use crate::chars::{alphabetic, is_alphabetic};
use crate::parser::pattern::{capture_first, first_capture, group_opt, Groups, GroupsView};
use crate::parser::VerificationResult;
use crate::text::{
    chars_of, collapse, collapse_of, contains, contains_text, find, find_in, has_prefix, is_ws,
    is_whitespace, join, join_of, lemma_rows_push, lines, lines_of, lower, rows, starts_with,
    string_of, subvec, to_lower, trim, trim_of, vec_eq, words, words_of,
};
use vstd::prelude::*;

verus! {

/// The word `fail`, separators, and a reason.
pub const FAIL_REASON: &'static str = r"(?i)fail[:\-\s]+(.+)";

/// The word `failed`, separators, and a reason.
pub const FAILED_REASON: &'static str = r"(?i)failed[:\-\s]+(.+)";

/// The word `reason`, separators, and a reason.
pub const STATED_REASON: &'static str = r"(?i)reason[:\-\s]+(.+)";

/// The text with a space for each underscore.
pub open spec fn spaced(s: Seq<char>) -> Seq<char> {
    Seq::new(
        s.len(),
        |i: int|
            if s[i] == '_' {
                ' '
            } else {
                s[i]
            },
    )
}

fn spaced_of(v: &Vec<char>) -> (r: Vec<char>)
    ensures
        r@ == spaced(v@),
{
    let mut r: Vec<char> = Vec::new();
    let mut i: usize = 0;
    while i < v.len()
        invariant
            i <= v.len(),
            r@ == spaced(v@.take(i as int)),
        decreases v.len() - i,
    {
        r.push(
            if v[i] == '_' {
                ' '
            } else {
                v[i]
            },
        );
        i += 1;
        assert(r@ =~= spaced(v@.take(i as int)));
    }
    assert(v@.take(v.len() as int) == v@);
    r
}

/// A character that separates a verdict from its reason.
pub open spec fn is_separator(c: char) -> bool {
    c == ':' || c == '-' || is_ws(c)
}

/// The text without its leading separators.
pub open spec fn past_separators(s: Seq<char>) -> Seq<char>
    decreases s.len(),
{
    if s.len() > 0 && is_separator(s[0]) {
        past_separators(s.drop_first())
    } else {
        s
    }
}

fn skip_separators(v: &Vec<char>, from: usize) -> (i: usize)
    requires
        from <= v.len(),
    ensures
        from <= i <= v.len(),
        v@.skip(i as int) == past_separators(v@.skip(from as int)),
{
    let mut i: usize = from;
    while i < v.len() && (v[i] == ':' || v[i] == '-' || is_whitespace(v[i]))
        invariant
            from <= i <= v.len(),
            past_separators(v@.skip(i as int)) == past_separators(v@.skip(from as int)),
        decreases v.len() - i,
    {
        assert(v@.skip(i as int).drop_first() == v@.skip(i + 1));
        i += 1;
    }
    i
}

/// The first line of a text, trimmed; empty for the empty text.
pub open spec fn first_line_trimmed(s: Seq<char>) -> Seq<char> {
    if lines(s).len() > 0 {
        trim(lines(s)[0])
    } else {
        Seq::empty()
    }
}

/// The reason that follows one of the patterns: for the first pattern that
/// occurs in the response, its ASCII letters in lower case, and is followed
/// by more than separators and an empty line, the first line of what
/// follows its first occurrence and the separators, trimmed.
pub open spec fn reason_after(response: Seq<char>, patterns: Seq<Seq<char>>) -> Option<
    Seq<char>,
>
    decreases patterns.len(),
{
    if patterns.len() == 0 {
        None
    } else {
        match find(lower(response), patterns[0]) {
            Some(pos) => {
                let rest = past_separators(response.skip(pos + patterns[0].len()));
                if first_line_trimmed(rest).len() > 0 {
                    Some(first_line_trimmed(rest))
                } else {
                    reason_after(response, patterns.drop_first())
                }
            },
            None => reason_after(response, patterns.drop_first()),
        }
    }
}

/// The view of an optional string.
pub open spec fn opt_text(r: Option<String>) -> Option<Seq<char>> {
    match r {
        Some(s) => Some(s@),
        None => None,
    }
}

/// The texts of the given string slices.
pub open spec fn slice_texts(v: Seq<&str>) -> Seq<Seq<char>> {
    Seq::new(v.len(), |i: int| v[i]@)
}

/// Looks for the reason that follows one of the patterns.
pub fn extract_reason_after_pattern(response: &str, patterns: &[&str]) -> (r: Option<String>)
    ensures
        opt_text(r) == reason_after(response@, slice_texts(patterns@)),
{
    let text = chars_of(response);
    let low = to_lower(&text);
    let mut k: usize = 0;
    assert(slice_texts(patterns@).skip(0) =~= slice_texts(patterns@));
    while k < patterns.len()
        invariant
            k <= patterns.len(),
            text@ == response@,
            low@ == lower(response@),
            reason_after(response@, slice_texts(patterns@)) == reason_after(
                response@,
                slice_texts(patterns@).skip(k as int),
            ),
        decreases patterns.len() - k,
    {
        let ghost rest_patterns = slice_texts(patterns@).skip(k as int);
        assert(rest_patterns.drop_first() =~= slice_texts(patterns@).skip(k + 1));
        assert(rest_patterns[0] == patterns@[k as int]@);
        let p = chars_of(patterns[k]);
        if let Some(pos) = find_in(&low, &p) {
            let start = skip_separators(&text, pos + p.len());
            let rest = subvec(&text, start, text.len());
            assert(rest@ == text@.skip(start as int));
            let ls = lines_of(&rest);
            if ls.len() > 0 {
                assert(rows(ls@)[0] == ls@[0]@);
                let first = trim_of(&ls[0]);
                if first.len() > 0 {
                    return Some(string_of(&first));
                }
            } else {
                assert(rows(ls@).len() == 0);
            }
        }
        k += 1;
    }
    None
}

/// The reason of a failure, given how the three reason patterns matched
/// the response: the first line of the first group that holds more than
/// white space, trimmed first; or else, where the response has more than
/// one line, its lines after the first, joined by spaces and trimmed.
pub open spec fn failure_reason(
    response: Seq<char>,
    after_fail: Option<GroupsView>,
    after_failed: Option<GroupsView>,
    after_reason: Option<GroupsView>,
) -> Option<Seq<char>> {
    if captured_reason(after_fail) is Some {
        captured_reason(after_fail)
    } else if captured_reason(after_failed) is Some {
        captured_reason(after_failed)
    } else if captured_reason(after_reason) is Some {
        captured_reason(after_reason)
    } else if lines(response).len() > 1 {
        Some(trim(join(lines(response).skip(1), seq![' '])))
    } else {
        None
    }
}

/// The first line of the first group of a match, trimmed first; nothing
/// where there is no match, no such group, or only white space in it.
pub open spec fn captured_reason(m: Option<GroupsView>) -> Option<Seq<char>> {
    if m is Some && m->0.first is Some && trim(m->0.first->0).len() > 0 && lines(
        trim(m->0.first->0),
    ).len() > 0 {
        Some(lines(trim(m->0.first->0))[0])
    } else {
        None
    }
}

fn reason_in(m: &Option<Groups>) -> (r: Option<String>)
    ensures
        opt_text(r) == captured_reason(group_opt(*m)),
{
    if let Some(g) = m {
        if let Some(s) = &g.first {
            let reason = trim_of(&chars_of(s.as_str()));
            if reason.len() > 0 {
                let ls = lines_of(&reason);
                if ls.len() > 0 {
                    assert(rows(ls@)[0] == ls@[0]@);
                    return Some(string_of(&ls[0]));
                } else {
                    assert(rows(ls@).len() == 0);
                }
            }
        }
    }
    None
}

/// Finds the reason of a failure, given how the three reason patterns
/// matched the response.
pub fn reason_from_matches(
    response: &str,
    after_fail: &Option<Groups>,
    after_failed: &Option<Groups>,
    after_reason: &Option<Groups>,
) -> (r: Option<String>)
    ensures
        opt_text(r) == failure_reason(
            response@,
            group_opt(*after_fail),
            group_opt(*after_failed),
            group_opt(*after_reason),
        ),
{
    if let Some(s) = reason_in(after_fail) {
        return Some(s);
    }
    if let Some(s) = reason_in(after_failed) {
        return Some(s);
    }
    if let Some(s) = reason_in(after_reason) {
        return Some(s);
    }
    let ls = lines_of(&chars_of(response));
    assert(rows(ls@).len() == ls@.len());
    if ls.len() > 1 {
        let mut rest: Vec<Vec<char>> = Vec::new();
        let mut i: usize = 1;
        assert(rows(rest@) =~= rows(ls@).subrange(1, 1));
        while i < ls.len()
            invariant
                1 <= i <= ls.len(),
                rows(rest@) == rows(ls@).subrange(1, i as int),
            decreases ls.len() - i,
        {
            let line = subvec(&ls[i], 0, ls[i].len());
            proof {
                assert(line@ == ls@[i as int]@);
                lemma_rows_push(rest@, line);
                assert(rows(rest@).push(line@) =~= rows(ls@).subrange(1, i + 1));
            }
            rest.push(line);
            i += 1;
        }
        assert(rows(ls@).subrange(1, ls.len() as int) =~= rows(ls@).skip(1));
        let mut sep: Vec<char> = Vec::new();
        sep.push(' ');
        assert(sep@ =~= seq![' ']);
        return Some(string_of(&trim_of(&join_of(&rest, &sep))));
    }
    None
}

/// The reason of a failure that a response states.
pub open spec fn stated_failure_reason(response: Seq<char>) -> Option<Seq<char>> {
    failure_reason(
        response,
        first_capture(FAIL_REASON@, response),
        first_capture(FAILED_REASON@, response),
        first_capture(STATED_REASON@, response),
    )
}

/// Finds the reason of a failure in a response.
pub fn extract_failure_reason(response: &str) -> (r: Option<String>)
    ensures
        opt_text(r) == stated_failure_reason(response@),
{
    let a = capture_first(FAIL_REASON, response);
    let b = capture_first(FAILED_REASON, response);
    let c = capture_first(STATED_REASON, response);
    reason_from_matches(response, &a, &b, &c)
}

/// The alphabetic characters of a text.
pub open spec fn letters(s: Seq<char>) -> Seq<char> {
    s.filter(|c: char| alphabetic(c))
}

/// The first word of a text, its ASCII letters in lower case; empty where
/// the text has no word.
pub open spec fn first_word(s: Seq<char>) -> Seq<char> {
    if words(s).len() > 0 {
        lower(words(s)[0])
    } else {
        Seq::empty()
    }
}

/// The response as it is searched for the marks of a verdict, that is
/// trimmed, its ASCII
/// letters in lower case, a space for each underscore, and its words with
/// one space between each two.
pub open spec fn marks(trimmed: Seq<char>) -> Seq<char> {
    collapse(spaced(lower(trimmed)))
}

/// The verdict of a trimmed response, given the letters of its first word
/// and the reason of a failure found in it. In this order:
/// - a response that starts with `pass with warnings`, `fail hard` or
///   `fail soft`, spelt with spaces, underscores or nothing between the
///   words and in any case, has that verdict, with the reason that follows
///   the mark;
/// - a first word `pass` or `passed` passes, `fail` or `failed` fails hard
///   with the reason found;
/// - a response that holds `pass` and not `fail` passes, one that holds
///   `fail` fails hard with the reason found;
/// - any other response fails hard as unclear.
pub open spec fn verdict_of(
    trimmed: Seq<char>,
    first_letters: Seq<char>,
    reason: Option<Seq<char>>,
) -> (VerificationResult, Option<Seq<char>>) {
    let low = lower(trimmed);
    let mark = marks(trimmed);
    if has_prefix(mark, "pass with warnings"@) || has_prefix(mark, "passwithwarnings"@) {
        (
            VerificationResult::PassWithWarnings,
            reason_after(
                trimmed,
                seq!["pass_with_warnings"@, "pass with warnings"@, "passwithwarnings"@],
            ),
        )
    } else if has_prefix(mark, "fail hard"@) || has_prefix(mark, "failhard"@) {
        (
            VerificationResult::FailHard,
            reason_after(trimmed, seq!["fail_hard"@, "fail hard"@, "failhard"@]),
        )
    } else if has_prefix(mark, "fail soft"@) || has_prefix(mark, "failsoft"@) {
        (
            VerificationResult::FailSoft,
            reason_after(trimmed, seq!["fail_soft"@, "fail soft"@, "failsoft"@]),
        )
    } else if first_letters == "pass"@ || first_letters == "passed"@ {
        (VerificationResult::Pass, None)
    } else if first_letters == "fail"@ || first_letters == "failed"@ {
        (VerificationResult::FailHard, reason)
    } else if contains(low, "pass"@) && !contains(low, "fail"@) {
        (VerificationResult::Pass, None)
    } else if contains(low, "fail"@) {
        (VerificationResult::FailHard, reason)
    } else {
        (VerificationResult::FailHard, Some("Unclear verification response"@))
    }
}

/// The verdict that a response gives, and its reason.
pub open spec fn verification_of(response: Seq<char>) -> (VerificationResult, Option<Seq<char>>) {
    let t = trim(response);
    verdict_of(t, letters(first_word(t)), stated_failure_reason(t))
}

/// Reads the verdict of a trimmed response, given the letters of its first
/// word and the reason of a failure found in it.
pub fn classify_verification(trimmed: &str, first_letters: &str, reason: Option<String>) -> (r: (
    VerificationResult,
    Option<String>,
))
    ensures
        (r.0, opt_text(r.1)) == verdict_of(trimmed@, first_letters@, opt_text(reason)),
{
    let text = chars_of(trimmed);
    let low = to_lower(&text);
    let mark = collapse_of(&spaced_of(&low));
    let first = chars_of(first_letters);
    if starts_with(&mark, &chars_of("pass with warnings")) || starts_with(
        &mark,
        &chars_of("passwithwarnings"),
    ) {
        let patterns = ["pass_with_warnings", "pass with warnings", "passwithwarnings"];
        assert(slice_texts(patterns@) =~= seq![
            "pass_with_warnings"@,
            "pass with warnings"@,
            "passwithwarnings"@,
        ]);
        return (
            VerificationResult::PassWithWarnings,
            extract_reason_after_pattern(trimmed, patterns.as_slice()),
        );
    }
    if starts_with(&mark, &chars_of("fail hard")) || starts_with(&mark, &chars_of("failhard")) {
        let patterns = ["fail_hard", "fail hard", "failhard"];
        assert(slice_texts(patterns@) =~= seq!["fail_hard"@, "fail hard"@, "failhard"@]);
        return (
            VerificationResult::FailHard,
            extract_reason_after_pattern(trimmed, patterns.as_slice()),
        );
    }
    if starts_with(&mark, &chars_of("fail soft")) || starts_with(&mark, &chars_of("failsoft")) {
        let patterns = ["fail_soft", "fail soft", "failsoft"];
        assert(slice_texts(patterns@) =~= seq!["fail_soft"@, "fail soft"@, "failsoft"@]);
        return (
            VerificationResult::FailSoft,
            extract_reason_after_pattern(trimmed, patterns.as_slice()),
        );
    }
    if vec_eq(&first, &chars_of("pass")) || vec_eq(&first, &chars_of("passed")) {
        return (VerificationResult::Pass, None);
    }
    if vec_eq(&first, &chars_of("fail")) || vec_eq(&first, &chars_of("failed")) {
        return (VerificationResult::FailHard, reason);
    }
    let has_pass = contains_text(&low, &chars_of("pass"));
    let has_fail = contains_text(&low, &chars_of("fail"));
    if has_pass && !has_fail {
        (VerificationResult::Pass, None)
    } else if has_fail {
        (VerificationResult::FailHard, reason)
    } else {
        (VerificationResult::FailHard, Some("Unclear verification response".to_owned()))
    }
}

fn letters_of(v: &Vec<char>) -> (r: Vec<char>)
    ensures
        r@ == letters(v@),
{
    let ghost keep = |c: char| alphabetic(c);
    let mut r: Vec<char> = Vec::new();
    let mut i: usize = 0;
    assert(r@ =~= v@.take(0).filter(keep));
    while i < v.len()
        invariant
            i <= v.len(),
            keep == (|c: char| alphabetic(c)),
            r@ == v@.take(i as int).filter(keep),
        decreases v.len() - i,
    {
        proof {
            reveal(Seq::filter);
            assert(v@.take(i + 1).drop_last() =~= v@.take(i as int));
            assert(v@.take(i + 1).last() == v@[i as int]);
        }
        if is_alphabetic(v[i]) {
            r.push(v[i]);
        }
        i += 1;
    }
    assert(v@.take(v.len() as int) == v@);
    r
}

/// Reads the verdict of a verification and its reason. An answer that
/// gives no clear verdict fails hard.
pub fn parse_verification(response: &str) -> (r: (VerificationResult, Option<String>))
    ensures
        (r.0, opt_text(r.1)) == verification_of(response@),
{
    let t = trim_of(&chars_of(response));
    let trimmed = string_of(&t);
    let ws = words_of(&t);
    assert(rows(ws@).len() == ws@.len());
    let first = if ws.len() > 0 {
        assert(rows(ws@)[0] == ws@[0]@);
        to_lower(&ws[0])
    } else {
        Vec::new()
    };
    let first_letters = string_of(&letters_of(&first));
    let reason = extract_failure_reason(trimmed.as_str());
    classify_verification(trimmed.as_str(), first_letters.as_str(), reason)
}

} // verus!
