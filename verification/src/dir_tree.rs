//! The collapsible directory view of a session's working directory.
//!
//! Reading a directory from disk is the caller's concern: every operation
//! that needs a directory's entries takes the listing as an argument, already
//! ordered as it should be displayed. The tree keeps its visible rows flat,
//! in display order; expanding a row splices its children in below it, and
//! collapsing moves the whole block of deeper rows that follows it into a
//! stash keyed by the row's path, so that expanding the same directory again
//! restores the view it had, nested expansions included.

use vstd::prelude::*;
use vstd::string::StrSliceExecFns;

verus! {

/// One entry of a directory listing, as the caller read it.
pub struct EntryInfo {
    pub name: String,
    pub path: String,
    pub is_dir: bool,
}

/// One visible row of the tree.
pub struct FlatEntry {
    pub name: String,
    pub path: String,
    pub is_dir: bool,
    pub depth: usize,
    pub expanded: bool,
}

/// A hidden entry starts with a dot.
pub open spec fn is_hidden(name: Seq<char>) -> bool {
    name.len() > 0 && name[0] == '.'
}

/// The rows a listing contributes under an expanded directory: one collapsed
/// row per entry at the given depth, with hidden entries shown only on
/// request.
pub open spec fn child_rows(entries: Seq<EntryInfo>, depth: int, show_hidden: bool) -> Seq<
    FlatEntry,
>
    decreases entries.len(),
{
    if entries.len() == 0 {
        Seq::<FlatEntry>::empty()
    } else {
        let rest = child_rows(entries.drop_last(), depth, show_hidden);
        let e = entries.last();
        if show_hidden || !is_hidden(e.name@) {
            rest.push(
                FlatEntry {
                    name: e.name,
                    path: e.path,
                    is_dir: e.is_dir,
                    depth: depth as usize,
                    expanded: false,
                },
            )
        } else {
            rest
        }
    }
}

/// Where the block of rows deeper than `d` that starts at `j` ends.
pub open spec fn block_end(rows: Seq<FlatEntry>, d: int, j: int) -> int
    decreases rows.len() - j,
{
    if j < 0 || j >= rows.len() || rows[j].depth <= d {
        j
    } else {
        block_end(rows, d, j + 1)
    }
}

/// A block of rows that a collapse removed from view, kept so that the next
/// expansion of the same directory restores it.
pub struct StashedBlock {
    pub path: String,
    pub rows: Vec<FlatEntry>,
}

/// Whether a collapsed block for this path is stashed.
pub open spec fn stash_has(stash: Seq<StashedBlock>, path: Seq<char>) -> bool {
    exists|k: int| 0 <= k < stash.len() && stash[k].path@ == path
}


/// The flat, ordered view of a directory tree: visible rows, a cursor,
/// whether hidden entries are shown, and the stashed blocks of collapsed
/// directories.
pub struct DirTree {
    pub flat: Vec<FlatEntry>,
    pub cursor: usize,
    pub show_hidden: bool,
    pub stash: Vec<StashedBlock>,
}

impl DirTree {
    /// A tree with no root directory.
    pub fn empty() -> (t: DirTree)
        ensures
            t.flat@.len() == 0,
            t.cursor == 0,
            !t.show_hidden,
            t.stash@.len() == 0,
    {
        DirTree { flat: Vec::new(), cursor: 0, show_hidden: false, stash: Vec::new() }
    }

    /// A tree rooted at a directory whose listing the caller read.
    pub fn new(root_name: String, root_path: String, entries: Vec<EntryInfo>) -> (t: DirTree)
        ensures
            t.flat@.len() >= 1,
            t.flat@ == seq![
                FlatEntry {
                    name: root_name,
                    path: root_path,
                    is_dir: true,
                    depth: 0,
                    expanded: true,
                },
            ] + child_rows(entries@, 1, false),
            t.cursor == 0,
            !t.show_hidden,
            t.stash@.len() == 0,
    {
        let mut t = DirTree::empty();
        t.set_root(root_name, root_path, entries);
        t
    }

    /// Replace the whole view with a root row (expanded) followed by its
    /// children (collapsed), and park the cursor on the root.
    pub fn set_root(&mut self, root_name: String, root_path: String, entries: Vec<EntryInfo>)
        ensures
            final(self).flat@ == seq![
                FlatEntry {
                    name: root_name,
                    path: root_path,
                    is_dir: true,
                    depth: 0,
                    expanded: true,
                },
            ] + child_rows(entries@, 1, old(self).show_hidden),
            final(self).cursor == 0,
            final(self).show_hidden == old(self).show_hidden,
            final(self).stash@.len() == 0,
    {
        let root = FlatEntry {
            name: root_name,
            path: root_path,
            is_dir: true,
            depth: 0,
            expanded: true,
        };
        let ghost root_spec = root;
        let mut flat: Vec<FlatEntry> = Vec::new();
        flat.push(root);
        let show_hidden = self.show_hidden;
        let mut entries = entries;
        let ghost all = entries@;
        let n = entries.len();
        let mut i: usize = 0;
        while i < n
            invariant
                n == all.len(),
                i <= n,
                entries@ == all.skip(i as int),
                flat@ == seq![root_spec] + child_rows(all.take(i as int), 1, show_hidden),
            decreases n - i,
        {
            proof {
                assert(all.take(i + 1).drop_last() =~= all.take(i as int));
                assert(all.take(i + 1).last() == all[i as int]);
                assert(entries@[0] == all[i as int]);
            }
            let e = entries.remove(0);
            if show_hidden || !starts_with_dot(e.name.as_str()) {
                flat.push(
                    FlatEntry {
                        name: e.name,
                        path: e.path,
                        is_dir: e.is_dir,
                        depth: 1,
                        expanded: false,
                    },
                );
            }
            proof {
                assert(entries@ =~= all.skip(i + 1));
                assert(flat@ =~= seq![root_spec] + child_rows(all.take(i + 1), 1, show_hidden));
            }
            i = i + 1;
        }
        proof {
            assert(all.take(n as int) =~= all);
        }
        self.flat = flat;
        self.cursor = 0;
        self.stash = Vec::new();
    }

    /// The visible rows, in display order.
    pub fn flatten(&self) -> (r: &Vec<FlatEntry>)
        ensures
            r@ == self.flat@,
    {
        &self.flat
    }

    pub fn cursor_up(&mut self)
        ensures
            final(self).cursor == (if old(self).cursor > 0 {
                old(self).cursor - 1
            } else {
                0int
            }),
            final(self).flat@ == old(self).flat@,
            final(self).show_hidden == old(self).show_hidden,
            final(self).stash == old(self).stash,
    {
        if self.cursor > 0 {
            self.cursor = self.cursor - 1;
        }
    }

    pub fn cursor_down(&mut self)
        ensures
            final(self).cursor == (if old(self).cursor + 1 < old(self).flat@.len() {
                old(self).cursor + 1
            } else {
                old(self).cursor as int
            }),
            final(self).flat@ == old(self).flat@,
            final(self).show_hidden == old(self).show_hidden,
            final(self).stash == old(self).stash,
    {
        if self.flat.len() > 0 && self.cursor < self.flat.len() - 1 {
            self.cursor = self.cursor + 1;
        }
    }

    /// The path of the row under the cursor, if any.
    pub fn selected_path(&self) -> (r: Option<String>)
        ensures
            r is Some <==> self.cursor < self.flat@.len(),
            r matches Some(p) ==> p@ == self.flat@[self.cursor as int].path@,
    {
        if self.cursor < self.flat.len() {
            Some(self.flat[self.cursor].path.clone())
        } else {
            None
        }
    }

    /// Whether the row under the cursor is a directory.
    pub fn selected_is_dir(&self) -> (r: bool)
        ensures
            r == (self.cursor < self.flat@.len() && self.flat@[self.cursor as int].is_dir),
    {
        self.cursor < self.flat.len() && self.flat[self.cursor].is_dir
    }

    /// Collapse or expand the directory under the cursor; a file under the
    /// cursor leaves everything untouched. Collapsing moves the block of
    /// deeper rows below the cursor into the stash, keyed by the row's path.
    /// Expanding restores that stashed block if one exists — so collapsing
    /// and expanding the same directory restores the view, nested expansions
    /// included — and otherwise splices in the caller's listing, collapsed.
    pub fn toggle(&mut self, entries: Vec<EntryInfo>)
        requires
            old(self).cursor < old(self).flat@.len() ==> old(self).flat@[old(self).cursor as int].depth < usize::MAX,
        ensures
            !(old(self).cursor < old(self).flat@.len() && old(self).flat@[old(self).cursor as int].is_dir) ==> *final(self) == *old(self),
            old(self).cursor < old(self).flat@.len() && old(self).flat@[old(self).cursor as int].is_dir && old(self).flat@[old(self).cursor as int].expanded ==> {
                let i = old(self).cursor as int;
                let row = old(self).flat@[i];
                let be = block_end(old(self).flat@, row.depth as int, i + 1);
                &&& final(self).flat@ == old(self).flat@.take(i).push(
                    FlatEntry { expanded: false, ..row },
                ) + old(self).flat@.skip(be)
                &&& final(self).stash@.len() == old(self).stash@.len() + 1
                &&& final(self).stash@.drop_last() == old(self).stash@
                &&& final(self).stash@.last().path@ == row.path@
                &&& final(self).stash@.last().rows@ == old(self).flat@.subrange(i + 1, be)
            },
            old(self).cursor < old(self).flat@.len() && old(self).flat@[old(self).cursor as int].is_dir && !old(self).flat@[old(self).cursor as int].expanded && stash_has(
                old(self).stash@,
                old(self).flat@[old(self).cursor as int].path@,
            ) ==> (forall|k: int|
                0 <= k < old(self).stash@.len() && old(self).stash@[k].path@ == old(
                    self,
                ).flat@[old(self).cursor as int].path@ && (forall|j: int|
                    0 <= j < k ==> old(self).stash@[j].path@ != old(self).flat@[old(
                        self,
                    ).cursor as int].path@) ==> {
                    let i = old(self).cursor as int;
                    let row = old(self).flat@[i];
                    &&& final(self).flat@ == old(self).flat@.take(i).push(
                        FlatEntry { expanded: true, ..row },
                    ) + (#[trigger] old(self).stash@[k]).rows@ + old(self).flat@.skip(i + 1)
                    &&& final(self).stash@ == old(self).stash@.remove(k)
                }),
            old(self).cursor < old(self).flat@.len() && old(self).flat@[old(self).cursor as int].is_dir && !old(self).flat@[old(self).cursor as int].expanded && !stash_has(
                old(self).stash@,
                old(self).flat@[old(self).cursor as int].path@,
            ) ==> final(self).flat@ == old(self).flat@.take(old(self).cursor as int).push(
                FlatEntry { expanded: true, ..old(self).flat@[old(self).cursor as int] },
            ) + child_rows(
                entries@,
                old(self).flat@[old(self).cursor as int].depth + 1,
                old(self).show_hidden,
            ) + old(self).flat@.skip(old(self).cursor + 1) && final(self).stash@ == old(
                self,
            ).stash@,
            final(self).cursor == old(self).cursor,
            final(self).show_hidden == old(self).show_hidden,
    {
        let ghost orig = *self;
        if !(self.cursor < self.flat.len() && self.flat[self.cursor].is_dir) {
            return ;
        }
        let i = self.cursor;
        let d = self.flat[i].depth;
        let was_expanded = self.flat[i].expanded;
        let mut row = self.flat.remove(i);
        row.expanded = !was_expanded;
        self.flat.insert(i, row);
        let path = self.flat[i].path.clone();

        if was_expanded {
            // Find where the block of deeper rows below the cursor ends.
            let ghost snap = self.flat@;
            let mut j: usize = i + 1;
            while j < self.flat.len() && self.flat[j].depth > d
                invariant
                    self.flat@ == snap,
                    self.cursor == orig.cursor,
                    self.show_hidden == orig.show_hidden,
                    self.stash == orig.stash,
                    snap == orig.flat@.update(
                        orig.cursor as int,
                        FlatEntry { expanded: false, ..orig.flat@[orig.cursor as int] },
                    ),
                    i == orig.cursor,
                    i < snap.len(),
                    d == orig.flat@[i as int].depth,
                    orig.flat@[i as int].is_dir && orig.flat@[i as int].expanded,
                    path@ == orig.flat@[i as int].path@,
                    i + 1 <= j <= self.flat@.len(),
                    forall|m: int| i + 1 <= m < j ==> self.flat@[m].depth > d,
                    block_end(self.flat@, d as int, i + 1) == block_end(self.flat@, d as int, j as int),
                decreases self.flat@.len() - j,
            {
                j = j + 1;
            }
            proof {
                assert(block_end(self.flat@, d as int, j as int) == j);
                assert(block_end(self.flat@, d as int, i + 1) == block_end(
                    orig.flat@,
                    d as int,
                    i + 1,
                )) by {
                    lemma_block_end_same(self.flat@, orig.flat@, d as int, i + 1);
                }
            }
            let mut tail = self.flat.split_off(j);
            let block_rows = self.flat.split_off(i + 1);
            self.flat.append(&mut tail);
            self.stash.push(StashedBlock { path, rows: block_rows });
            proof {
                let be = block_end(orig.flat@, d as int, i + 1);
                assert(self.flat@ =~= orig.flat@.take(i as int).push(
                    FlatEntry { expanded: false, ..orig.flat@[i as int] },
                ) + orig.flat@.skip(be));
                assert(self.stash@.drop_last() =~= orig.stash@);
                assert(self.stash@.last().rows@ =~= orig.flat@.subrange(i + 1, be));
            }
        } else {
            let found = Self::find_stashed(&self.stash, &path);
            match found {
                Some(k) => {
                    let block = self.stash.remove(k);
                    let mut rows = block.rows;
                    let mut tail = self.flat.split_off(i + 1);
                    self.flat.append(&mut rows);
                    self.flat.append(&mut tail);
                    proof {
                        assert(stash_has(orig.stash@, orig.flat@[i as int].path@));
                        assert(self.flat@ =~= orig.flat@.take(i as int).push(
                            FlatEntry { expanded: true, ..orig.flat@[i as int] },
                        ) + orig.stash@[k as int].rows@ + orig.flat@.skip(i + 1));
                        assert forall|k2: int|
                            0 <= k2 < orig.stash@.len() && orig.stash@[k2].path@
                                == orig.flat@[i as int].path@ && (forall|j2: int|
                                0 <= j2 < k2 ==> orig.stash@[j2].path@ != orig.flat@[i as int].path@) implies k2
                            == k as int by {
                            if k2 < k as int {
                                assert(orig.stash@[k2].path@ != path@);
                            } else if k2 > k as int {
                                assert(orig.stash@[k as int].path@ != orig.flat@[i as int].path@);
                            }
                        }
                    }
                },
                None => {
                    proof {
                        assert(!stash_has(orig.stash@, orig.flat@[i as int].path@));
                    }
                    let mut tail = self.flat.split_off(i + 1);
                    let show_hidden = self.show_hidden;
                    let mut entries = entries;
                    let ghost all = entries@;
                    let n = entries.len();
                    let mut k: usize = 0;
                    let ghost base = self.flat@;
                    while k < n
                        invariant
                            n == all.len(),
                            k <= n,
                            entries@ == all.skip(k as int),
                            d < usize::MAX,
                            self.cursor == orig.cursor,
                            self.show_hidden == orig.show_hidden,
                            self.stash == orig.stash,
                            show_hidden == orig.show_hidden,
                            self.flat@ == base + child_rows(all.take(k as int), d + 1, show_hidden),
                        decreases n - k,
                    {
                        proof {
                            assert(all.take(k + 1).drop_last() =~= all.take(k as int));
                            assert(all.take(k + 1).last() == all[k as int]);
                            assert(entries@[0] == all[k as int]);
                        }
                        let e = entries.remove(0);
                        if show_hidden || !starts_with_dot(e.name.as_str()) {
                            self.flat.push(
                                FlatEntry {
                                    name: e.name,
                                    path: e.path,
                                    is_dir: e.is_dir,
                                    depth: d + 1,
                                    expanded: false,
                                },
                            );
                        }
                        proof {
                            assert(entries@ =~= all.skip(k + 1));
                            assert(self.flat@ =~= base + child_rows(all.take(k + 1), d + 1, show_hidden));
                        }
                        k = k + 1;
                    }
                    self.flat.append(&mut tail);
                    proof {
                        assert(all.take(n as int) =~= all);
                        assert(self.flat@ =~= orig.flat@.take(i as int).push(
                            FlatEntry { expanded: true, ..orig.flat@[i as int] },
                        ) + child_rows(all, d + 1, show_hidden) + orig.flat@.skip(i + 1));
                    }
                },
            }
        }
    }

    /// The position of the first stashed block for this path, if any.
    fn find_stashed(stash: &Vec<StashedBlock>, path: &String) -> (r: Option<usize>)
        ensures
            r matches Some(k) ==> k < stash@.len() && stash@[k as int].path@ == path@ && (
            forall|j: int| 0 <= j < k ==> stash@[j].path@ != path@),
            r is None ==> forall|k: int| 0 <= k < stash@.len() ==> stash@[k].path@ != path@,
    {
        let mut k: usize = 0;
        while k < stash.len()
            invariant
                k <= stash@.len(),
                forall|j: int| 0 <= j < k ==> stash@[j].path@ != path@,
            decreases stash@.len() - k,
        {
            if stash[k].path == *path {
                return Some(k);
            }
            k = k + 1;
        }
        None
    }

    /// Flip whether hidden entries are shown in newly supplied listings, and
    /// keep the cursor on a valid row. The caller refreshes the listings.
    pub fn toggle_hidden(&mut self)
        ensures
            final(self).show_hidden == !old(self).show_hidden,
            final(self).flat@ == old(self).flat@,
            final(self).stash == old(self).stash,
            final(self).cursor == (if old(self).cursor < old(self).flat@.len() {
                old(self).cursor as int
            } else if old(self).flat@.len() > 0 {
                old(self).flat@.len() - 1
            } else {
                0int
            }),
    {
        self.show_hidden = !self.show_hidden;
        if self.cursor >= self.flat.len() {
            if self.flat.len() > 0 {
                self.cursor = self.flat.len() - 1;
            } else {
                self.cursor = 0;
            }
        }
    }
}

/// Whether a file name marks a hidden entry.
fn starts_with_dot(name: &str) -> (r: bool)
    ensures
        r == is_hidden(name@),
{
    if name.is_empty() {
        false
    } else {
        name.get_char(0) == '.'
    }
}

/// A block's end does not move when only rows before the block's start
/// differ.
proof fn lemma_block_end_same(a: Seq<FlatEntry>, b: Seq<FlatEntry>, d: int, j: int)
    requires
        0 <= j,
        a.len() == b.len(),
        forall|m: int| j <= m < a.len() ==> a[m] == b[m],
    ensures
        block_end(a, d, j) == block_end(b, d, j),
    decreases a.len() - j,
{
    if j < a.len() && a[j].depth > d {
        lemma_block_end_same(a, b, d, j + 1);
    }
}

} // verus!
