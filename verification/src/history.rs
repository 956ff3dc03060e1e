//! Recall of previously submitted input lines, newest first.

use vstd::prelude::*;

verus! {

/// A list of submitted entries with a recall cursor. The cursor sits between
/// 0 and the number of entries; at the number of entries it means "new input,
/// nothing recalled".
pub struct InputHistory {
    entries: Vec<String>,
    cursor: usize,
}

impl InputHistory {
    /// The recorded entries, oldest first.
    pub closed spec fn entries(&self) -> Seq<Seq<char>> {
        self.entries@.map_values(|s: String| s@)
    }

    pub closed spec fn cursor(&self) -> int {
        self.cursor as int
    }

    pub closed spec fn wf(&self) -> bool {
        self.cursor <= self.entries@.len()
    }

    pub fn new() -> (h: InputHistory)
        ensures
            h.wf(),
            h.cursor() >= 0,
            h.entries().len() == 0,
            h.cursor() == 0,
    {
        let h = InputHistory { entries: Vec::new(), cursor: 0 };
        proof {
            assert(h.entries() =~= Seq::<Seq<char>>::empty());
        }
        h
    }

    /// Record an entry (empty input is ignored) and reset the cursor past the
    /// newest entry.
    pub fn push(&mut self, entry: String)
        requires
            old(self).wf(),
        ensures
            final(self).wf(),
            final(self).cursor() >= 0,
            entry@.len() > 0 ==> final(self).entries() == old(self).entries().push(entry@),
            entry@.len() == 0 ==> final(self).entries() == old(self).entries(),
            final(self).cursor() == final(self).entries().len(),
    {
        if !entry.as_str().is_empty() {
            self.entries.push(entry);
            proof {
                assert(self.entries() =~= old(self).entries().push(entry@));
            }
        } else {
            proof {
                assert(self.entries() =~= old(self).entries());
            }
        }
        self.cursor = self.entries.len();
    }

    /// Move the cursor to an older entry and return it; at the oldest entry
    /// the cursor stays and the oldest entry is returned (or nothing, when
    /// the history is empty).
    pub fn up(&mut self) -> (r: Option<String>)
        requires
            old(self).wf(),
        ensures
            final(self).wf(),
            final(self).cursor() >= 0,
            final(self).entries() == old(self).entries(),
            old(self).cursor() > 0 ==> {
                &&& final(self).cursor() == old(self).cursor() - 1
                &&& r is Some
                &&& r.unwrap()@ == final(self).entries()[final(self).cursor()]
            },
            old(self).cursor() == 0 ==> {
                &&& final(self).cursor() == 0
                &&& (r is Some <==> old(self).entries().len() > 0)
                &&& (r is Some ==> r.unwrap()@ == old(self).entries()[0])
            },
    {
        if self.cursor > 0 {
            self.cursor = self.cursor - 1;
            Some(self.entries[self.cursor].clone())
        } else if self.entries.len() > 0 {
            Some(self.entries[0].clone())
        } else {
            None
        }
    }

    /// Move the cursor to a newer entry and return it; past the newest entry
    /// the cursor parks at the end and nothing is returned, meaning "clear
    /// the input".
    pub fn down(&mut self) -> (r: Option<String>)
        requires
            old(self).wf(),
        ensures
            final(self).wf(),
            final(self).cursor() >= 0,
            final(self).entries() == old(self).entries(),
            old(self).cursor() + 1 < old(self).entries().len() ==> {
                &&& final(self).cursor() == old(self).cursor() + 1
                &&& r is Some
                &&& r.unwrap()@ == final(self).entries()[final(self).cursor()]
            },
            old(self).cursor() + 1 >= old(self).entries().len() ==> {
                &&& final(self).cursor() == final(self).entries().len()
                &&& r is None
            },
    {
        if self.entries.len() > 0 && self.cursor < self.entries.len() - 1 {
            self.cursor = self.cursor + 1;
            Some(self.entries[self.cursor].clone())
        } else {
            self.cursor = self.entries.len();
            None
        }
    }

    /// Park the cursor past the newest entry.
    pub fn reset_cursor(&mut self)
        ensures
            final(self).wf(),
            final(self).cursor() >= 0,
            final(self).entries() == old(self).entries(),
            final(self).cursor() == final(self).entries().len(),
    {
        self.cursor = self.entries.len();
    }
}

} // verus!
