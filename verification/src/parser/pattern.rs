//! Regular expressions, as the `regex` crate matches them.

use vstd::prelude::*;

verus! {

/// What the first two capture groups of one match hold: for each the text
/// it matched, or nothing where the pattern has no such group or the group
/// took no part in the match.
#[derive(Debug, Clone, PartialEq, Eq)]
pub struct Groups {
    pub first: Option<String>,
    pub second: Option<String>,
}

/// The captures as texts.
pub struct GroupsView {
    pub first: Option<Seq<char>>,
    pub second: Option<Seq<char>>,
}

impl View for Groups {
    type V = GroupsView;

    open spec fn view(&self) -> GroupsView {
        GroupsView {
            first: match self.first {
                Some(s) => Some(s@),
                None => None,
            },
            second: match self.second {
                Some(s) => Some(s@),
                None => None,
            },
        }
    }
}

/// The views of a sequence of captures.
pub open spec fn group_seq(ms: Seq<Groups>) -> Seq<GroupsView> {
    Seq::new(ms.len(), |i: int| ms[i]@)
}

/// The view of optional captures.
pub open spec fn group_opt(m: Option<Groups>) -> Option<GroupsView> {
    match m {
        Some(g) => Some(g@),
        None => None,
    }
}

/// The captures of the first match of `pattern` in `text`, as
/// `regex::Regex::captures` finds it; nothing where the pattern matches
/// nowhere or is no valid pattern.
pub uninterp spec fn first_capture(pattern: Seq<char>, text: Seq<char>) -> Option<GroupsView>;

/// The captures of all matches of `pattern` in `text` that do not overlap,
/// in order, as `regex::Regex::captures_iter` finds them; none where the
/// pattern is no valid pattern.
pub uninterp spec fn all_captures(pattern: Seq<char>, text: Seq<char>) -> Seq<GroupsView>;

/// `regex::Regex::captures` on the pattern compiled by `regex::Regex::new`:
/// the first match, of which the texts of groups 1 and 2 are handed out.
/// The result is only named; a pattern that does not compile gives `None`.
#[verifier::external_body]
pub(crate) fn capture_first(pattern: &str, text: &str) -> (r: Option<Groups>)
    ensures
        group_opt(r) == first_capture(pattern@, text@),
{
    let re = regex::Regex::new(pattern).ok()?;
    let caps = re.captures(text)?;
    Some(
        Groups {
            first: caps.get(1).map(|m| m.as_str().to_string()),
            second: caps.get(2).map(|m| m.as_str().to_string()),
        },
    )
}

/// `regex::Regex::captures_iter` on the pattern compiled by
/// `regex::Regex::new`: every match in order, of each the texts of groups 1
/// and 2. The result is only named; a pattern that does not compile gives
/// no match.
#[verifier::external_body]
pub(crate) fn capture_all(pattern: &str, text: &str) -> (r: Vec<Groups>)
    ensures
        group_seq(r@) == all_captures(pattern@, text@),
{
    match regex::Regex::new(pattern) {
        Ok(re) => re.captures_iter(text).map(
            |caps| Groups {
                first: caps.get(1).map(|m| m.as_str().to_string()),
                second: caps.get(2).map(|m| m.as_str().to_string()),
            },
        ).collect(),
        Err(_) => Vec::new(),
    }
}

} // verus!
