//! A cache of file contents, each kept with the time at which the file
//! was last modified when it was read.

use crate::parser::extract::count_lines;
use crate::status::Timestamp;
use crate::text::{lines, same_text};
use vstd::prelude::*;

verus! {

/// A file as it was read.
#[derive(Debug)]
pub struct CacheEntry {
    pub content: String,
    /// When the file was last modified.
    pub modified: Timestamp,
    pub line_count: usize,
}

/// How much a cache holds.
#[derive(Debug, Clone, Copy, PartialEq, Eq, Structural)]
pub struct CacheStats {
    pub entry_count: usize,
    pub total_bytes: u128,
    pub total_lines: u128,
}

/// The files that were read, each under its path. Of a path, the first
/// entry counts; entering a file again replaces it.
#[derive(Debug)]
pub struct FileCache {
    entries: Vec<(String, CacheEntry)>,
}

/// The position of the entry of `path`; the number of entries where there
/// is none.
pub open spec fn slot(entries: Seq<(String, CacheEntry)>, path: Seq<char>) -> int
    decreases entries.len(),
{
    if entries.len() == 0 || entries[0].0@ == path {
        0
    } else {
        1 + slot(entries.drop_first(), path)
    }
}

pub proof fn lemma_slot(entries: Seq<(String, CacheEntry)>, path: Seq<char>, i: int)
    requires
        0 <= i <= entries.len(),
        forall|k: int| 0 <= k < i ==> entries[k].0@ != path,
        i == entries.len() || entries[i].0@ == path,
    ensures
        slot(entries, path) == i,
    decreases entries.len(),
{
    if i > 0 {
        assert forall|k: int| 0 <= k < i - 1 implies entries.drop_first()[k].0@ != path by {
            assert(entries.drop_first()[k] == entries[k + 1]);
        }
        lemma_slot(entries.drop_first(), path, i - 1);
    }
}

/// The bytes of the contents together.
pub open spec fn bytes_held(entries: Seq<(String, CacheEntry)>) -> nat
    decreases entries.len(),
{
    if entries.len() == 0 {
        0
    } else {
        bytes_held(entries.drop_last()) + vstd::utf8::encode_utf8(entries.last().1.content@).len()
    }
}

/// The line counts together.
pub open spec fn lines_held(entries: Seq<(String, CacheEntry)>) -> nat
    decreases entries.len(),
{
    if entries.len() == 0 {
        0
    } else {
        lines_held(entries.drop_last()) + entries.last().1.line_count as nat
    }
}

impl FileCache {
    /// The entries, in the order in which their paths came in.
    pub closed spec fn entries(&self) -> Seq<(String, CacheEntry)> {
        self.entries@
    }

    /// An empty cache.
    pub fn new() -> (r: Self)
        ensures
            r.entries().len() == 0,
    {
        FileCache { entries: Vec::new() }
    }

    fn find(&self, path: &str) -> (r: Option<usize>)
        ensures
            match r {
                Some(i) => i == slot(self.entries(), path@) && i < self.entries().len(),
                None => slot(self.entries(), path@) >= self.entries().len(),
            },
    {
        let mut i: usize = 0;
        while i < self.entries.len()
            invariant
                i <= self.entries.len(),
                forall|k: int| 0 <= k < i ==> self.entries@[k].0@ != path@,
            decreases self.entries.len() - i,
        {
            if same_text(self.entries[i].0.as_str(), path) {
                proof {
                    lemma_slot(self.entries@, path@, i as int);
                }
                return Some(i);
            }
            i += 1;
        }
        proof {
            lemma_slot(self.entries@, path@, i as int);
        }
        None
    }

    /// The entry of a path, if the cache holds one.
    pub fn get(&self, path: &str) -> (r: Option<&CacheEntry>)
        ensures
            r is Some == (slot(self.entries(), path@) < self.entries().len()),
            r matches Some(e) ==> *e == self.entries()[slot(self.entries(), path@)].1,
    {
        match self.find(path) {
            Some(i) => Some(&self.entries[i].1),
            None => None,
        }
    }

    /// The entry of a path, if the cache holds one of the file as it was
    /// last modified at `modified`.
    pub fn get_fresh(&self, path: &str, modified: Timestamp) -> (r: Option<&CacheEntry>)
        ensures
            r is Some == (slot(self.entries(), path@) < self.entries().len() && self.entries()[slot(
                self.entries(),
                path@,
            )].1.modified == modified),
            r matches Some(e) ==> *e == self.entries()[slot(self.entries(), path@)].1,
    {
        match self.find(path) {
            Some(i) => {
                if self.entries[i].1.modified == modified {
                    Some(&self.entries[i].1)
                } else {
                    None
                }
            },
            None => None,
        }
    }

    /// Enters a file as it was read, in place of the entry of its path if
    /// there is one.
    pub fn store(&mut self, path: String, content: String, modified: Timestamp)
        ensures
            ({
                let i = slot(old(self).entries(), path@);
                let line_count = lines(content@).len() as usize;
                let entry = CacheEntry { content, modified, line_count };
                if i < old(self).entries().len() {
                    final(self).entries() == old(self).entries().update(
                        i,
                        (old(self).entries()[i].0, entry),
                    )
                } else {
                    final(self).entries() == old(self).entries().push((path, entry))
                }
            }),
    {
        let line_count = count_lines(content.as_str());
        let entry = CacheEntry { content, modified, line_count };
        match self.find(path.as_str()) {
            Some(i) => {
                self.entries[i].1 = entry;
                assert(self.entries@ =~= old(self).entries@.update(
                    i as int,
                    (old(self).entries@[i as int].0, entry),
                ));
            },
            None => {
                self.entries.push((path, entry));
            },
        }
    }

    /// Drops the entry of a path.
    pub fn invalidate(&mut self, path: &str)
        ensures
            ({
                let i = slot(old(self).entries(), path@);
                if i < old(self).entries().len() {
                    final(self).entries() == old(self).entries().remove(i)
                } else {
                    final(self).entries() == old(self).entries()
                }
            }),
    {
        if let Some(i) = self.find(path) {
            self.entries.remove(i);
        }
    }

    /// Drops all entries.
    pub fn clear(&mut self)
        ensures
            final(self).entries().len() == 0,
    {
        self.entries.clear();
    }

    /// How much the cache holds: the number of its entries, the bytes of
    /// their contents and their lines.
    pub fn stats(&self) -> (r: CacheStats)
        ensures
            r.entry_count == self.entries().len(),
            r.total_bytes == bytes_held(self.entries()),
            r.total_lines == lines_held(self.entries()),
    {
        let ghost all = self.entries@;
        let mut bytes: u128 = 0;
        let mut lines_total: u128 = 0;
        let mut i: usize = 0;
        assert(all.take(0) =~= Seq::<(String, CacheEntry)>::empty());
        while i < self.entries.len()
            invariant
                i <= self.entries.len(),
                all == self.entries@,
                bytes == bytes_held(all.take(i as int)),
                lines_total == lines_held(all.take(i as int)),
                bytes <= i * 0x1_0000_0000_0000_0000,
                lines_total <= i * 0x1_0000_0000_0000_0000,
            decreases self.entries.len() - i,
        {
            assert(all.take(i + 1).drop_last() == all.take(i as int));
            assert(all.take(i + 1).last() == all[i as int]);
            let n = self.entries[i].1.content.as_str().as_bytes().len();
            assert(usize::MAX <= 0xffff_ffff_ffff_ffff) by {
                assert(usize::BITS == 32 || usize::BITS == 64);
            }
            assert((i + 1) * 0x1_0000_0000_0000_0000 == i * 0x1_0000_0000_0000_0000
                + 0x1_0000_0000_0000_0000) by (nonlinear_arith);
            assert(i * 0x1_0000_0000_0000_0000 <= 0xffff_ffff_ffff_ffff
                * 0x1_0000_0000_0000_0000) by (nonlinear_arith)
                requires
                    i <= 0xffff_ffff_ffff_ffff,
            ;
            bytes = bytes + n as u128;
            lines_total = lines_total + self.entries[i].1.line_count as u128;
            i += 1;
        }
        assert(all.take(all.len() as int) == all);
        CacheStats { entry_count: self.entries.len(), total_bytes: bytes, total_lines: lines_total }
    }
}

} // verus!
