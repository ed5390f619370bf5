//! Reading the generator's answer as it arrives: in pieces that hold
//! lines, each line a message.

use crate::error::OllamaError;
use crate::text::{
    append, append_str, chars_of, index_of, index_of_from, lemma_strs_push, prefix, prefix_of,
    string_of, strs, subvec,
};
use vstd::prelude::*;

verus! {

/// The lines that `text` ends, but for the empty ones, in order: what
/// stands before each line feed.
pub open spec fn ended_lines(text: Seq<char>) -> Seq<Seq<char>>
    decreases text.len(),
{
    let i = index_of(text, '\n');
    if 0 <= i < text.len() {
        (if i > 0 {
            seq![text.take(i)]
        } else {
            Seq::<Seq<char>>::empty()
        }) + ended_lines(text.skip(i + 1))
    } else {
        Seq::empty()
    }
}

/// What stands behind the last line feed of `text`.
pub open spec fn open_line(text: Seq<char>) -> Seq<char>
    decreases text.len(),
{
    let i = index_of(text, '\n');
    if 0 <= i < text.len() {
        open_line(text.skip(i + 1))
    } else {
        text
    }
}

/// What has arrived of the answer and does not end in a line feed yet.
#[derive(Debug)]
pub struct LineBuffer {
    pub pending: String,
}

impl LineBuffer {
    pub fn new() -> (r: Self)
        ensures
            r.pending@.len() == 0,
    {
        LineBuffer { pending: String::new() }
    }

    /// Takes in a piece of the answer, and hands out the lines that are
    /// complete with it, but for the empty ones. What stands behind the
    /// last line feed waits for the next piece.
    pub fn push_chunk(&mut self, chunk: &str) -> (r: Vec<String>)
        ensures
            strs(r@) == ended_lines(old(self).pending@ + chunk@),
            final(self).pending@ == open_line(old(self).pending@ + chunk@),
    {
        let mut text = chars_of(self.pending.as_str());
        append(&mut text, &chars_of(chunk));
        let mut out: Vec<String> = Vec::new();
        let mut pos: usize = 0;
        assert(text@.skip(0) == text@);
        assert(strs(out@) =~= Seq::<Seq<char>>::empty());
        loop
            invariant
                pos <= text.len(),
                text@ == old(self).pending@ + chunk@,
                ended_lines(text@) == strs(out@) + ended_lines(text@.skip(pos as int)),
                open_line(text@) == open_line(text@.skip(pos as int)),
            decreases text.len() - pos,
        {
            let at = index_of_from(&text, '\n', pos);
            let ghost rest = text@.skip(pos as int);
            if at >= text.len() {
                self.pending = string_of(&subvec(&text, pos, text.len()));
                assert(text@.subrange(pos as int, text.len() as int) == rest);
                assert(strs(out@) + Seq::<Seq<char>>::empty() =~= strs(out@));
                return out;
            }
            proof {
                assert(rest.skip(at - pos + 1) =~= text@.skip(at + 1));
                assert(rest.take(at - pos) =~= text@.subrange(pos as int, at as int));
            }
            if at > pos {
                let line = string_of(&subvec(&text, pos, at));
                let ghost before = strs(out@);
                proof {
                    lemma_strs_push(out@, line);
                    assert(before.push(line@) + ended_lines(text@.skip(at + 1)) =~= before + (
                    seq![line@] + ended_lines(text@.skip(at + 1))));
                }
                out.push(line);
            } else {
                assert(Seq::<Seq<char>>::empty() + ended_lines(text@.skip(at + 1)) =~= ended_lines(
                    text@.skip(at + 1),
                ));
            }
            pos = at + 1;
        }
    }
}

/// The answer as far as it has arrived.
#[derive(Debug)]
pub struct Answer {
    pub text: String,
    /// How many messages have arrived.
    pub messages: usize,
    pub done: bool,
}

impl Answer {
    pub fn new() -> (r: Self)
        ensures
            r.text@.len() == 0,
            r.messages == 0,
            !r.done,
    {
        Answer { text: String::new(), messages: 0, done: false }
    }

    /// Takes in a message: its content joins the answer, and the answer is
    /// done once a message says so.
    pub fn accept(&mut self, content: &str, done: bool)
        ensures
            final(self).text@ == old(self).text@ + content@,
            final(self).messages == (if old(self).messages < usize::MAX {
                (old(self).messages + 1) as usize
            } else {
                old(self).messages
            }),
            final(self).done == (old(self).done || done),
    {
        let mut text = chars_of(self.text.as_str());
        append_str(&mut text, content);
        self.text = string_of(&text);
        if self.messages < usize::MAX {
            self.messages += 1;
        }
        self.done = self.done || done;
    }

    /// Decides on a line that is no message. Once the answer holds text,
    /// such a line is passed over; before, it is an error that shows the
    /// first 200 characters of the line and the reason.
    pub fn reject(&self, line: &str, reason: &str) -> (r: Result<(), OllamaError>)
        ensures
            r is Ok == (self.text@.len() > 0),
            r matches Err(e) ==> e matches OllamaError::ParseError(m) && m@ == "Failed to parse: "@
                + prefix(line@, 200) + " - "@ + reason@,
    {
        if !self.text.as_str().is_empty() {
            return Ok(());
        }
        let mut out: Vec<char> = Vec::new();
        append_str(&mut out, "Failed to parse: ");
        append(&mut out, &prefix_of(&chars_of(line), 200));
        append_str(&mut out, " - ");
        append_str(&mut out, reason);
        assert(out@ =~= "Failed to parse: "@ + prefix(line@, 200) + " - "@ + reason@);
        Err(OllamaError::ParseError(string_of(&out)))
    }
}

} // verus!
