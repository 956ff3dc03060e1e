//! Scrollable preview of one file's contents.
//!
//! Reading the file from disk is the caller's concern; this module decides
//! how raw bytes are displayed: binary data (a zero byte near the start) is
//! replaced by a marker, text is split into lines, and a scroll window
//! selects what is visible.

use vstd::prelude::*;
use crate::log_store::{lossy_text, split_lf};

verus! {

/// How many leading bytes are inspected for the binary heuristic.
pub const BINARY_SNIFF_LEN: usize = 8192;

/// `p` without a single trailing carriage return, as a line ending strips it.
pub open spec fn strip_one_cr(p: Seq<u8>) -> Seq<u8> {
    if p.len() > 0 && p.last() == 13 {
        p.drop_last()
    } else {
        p
    }
}

/// The display lines of a text: split at line feeds, each line feed's
/// preceding carriage return stripped, a final line ending optional, and no
/// lines at all for empty text.
pub open spec fn text_lines(s: Seq<u8>) -> Seq<Seq<u8>> {
    if s.len() == 0 {
        Seq::<Seq<u8>>::empty()
    } else if s.last() == 10 {
        split_lf(s).drop_last().map_values(|p: Seq<u8>| strip_one_cr(p))
    } else {
        let parts = split_lf(s);
        parts.drop_last().map_values(|p: Seq<u8>| strip_one_cr(p)).push(parts.last())
    }
}

/// A zero byte among the first [`BINARY_SNIFF_LEN`] bytes marks binary data.
pub open spec fn looks_binary(s: Seq<u8>) -> bool {
    exists|i: int| 0 <= i < s.len() && i < BINARY_SNIFF_LEN && s[i] == 0
}

/// Lines joined by line feeds.
pub open spec fn join_lines(parts: Seq<Seq<char>>) -> Seq<char>
    decreases parts.len(),
{
    if parts.len() == 0 {
        Seq::<char>::empty()
    } else if parts.len() == 1 {
        parts[0]
    } else {
        join_lines(parts.drop_last()) + "\n"@ + parts.last()
    }
}

/// The window of lines that a scroll position and a panel height select.
pub open spec fn visible_window(lines: Seq<Seq<char>>, scroll: int, height: int) -> Seq<
    Seq<char>,
> {
    let start = if scroll < lines.len() {
        scroll
    } else {
        lines.len() as int
    };
    let end = if start + height < lines.len() {
        start + height
    } else {
        lines.len() as int
    };
    lines.subrange(start, end)
}

pub open spec fn line_views(lines: Seq<String>) -> Seq<Seq<char>> {
    lines.map_values(|s: String| s@)
}

/// The preview state: the previewed path, its display lines (absent when no
/// file is selected), the scroll position and the total line count.
pub struct FilePreview {
    pub path: Option<String>,
    pub content: Option<Vec<String>>,
    pub scroll: usize,
    pub total_lines: usize,
}

impl FilePreview {
    pub fn new() -> (p: FilePreview)
        ensures
            p.path is None,
            p.content is None,
            p.scroll == 0,
            p.total_lines == 0,
    {
        FilePreview { path: None, content: None, scroll: 0, total_lines: 0 }
    }

    /// Display the raw contents of a file: binary data becomes a marker
    /// line, text is split into display lines; the scroll position resets.
    pub fn load_bytes(&mut self, path: String, bytes: &[u8])
        ensures
            final(self).path matches Some(p) && p@ == path@,
            final(self).scroll == 0,
            looks_binary(bytes@) ==> {
                &&& final(self).content matches Some(c) && line_views(c@) =~= seq![
                    "(バイナリファイル)"@,
                ]
                &&& final(self).total_lines == 1
            },
            !looks_binary(bytes@) ==> {
                &&& final(self).content matches Some(c) && line_views(c@).len() == text_lines(
                    bytes@,
                ).len() && (forall|k: int|
                    0 <= k < text_lines(bytes@).len() ==> line_views(c@)[k] == lossy_text(
                        text_lines(bytes@)[k],
                    ))
                &&& final(self).total_lines == (if text_lines(bytes@).len() == 0 {
                    1int
                } else {
                    text_lines(bytes@).len() as int
                })
            },
    {
        self.path = Some(path);
        self.scroll = 0;

        let mut i: usize = 0;
        let n = bytes.len();
        let sniff = if n < BINARY_SNIFF_LEN {
            n
        } else {
            BINARY_SNIFF_LEN
        };
        while i < sniff
            invariant
                self.path matches Some(p) && p@ == path@,
                self.scroll == 0,
                n == bytes@.len(),
                sniff <= n,
                sniff <= BINARY_SNIFF_LEN,
                i <= sniff,
                sniff == (if n < BINARY_SNIFF_LEN {
                    n as int
                } else {
                    BINARY_SNIFF_LEN as int
                }),
                forall|k: int| 0 <= k < i ==> bytes@[k] != 0,
            decreases sniff - i,
        {
            if bytes[i] == 0 {
                let marker: String = "(バイナリファイル)".to_owned();
                let mut content: Vec<String> = Vec::new();
                content.push(marker);
                proof {
                    assert(line_views(content@) =~= seq!["(バイナリファイル)"@]);
                }
                self.content = Some(content);
                self.total_lines = 1;
                return ;
            }
            i = i + 1;
        }
        proof {
            assert(!looks_binary(bytes@));
        }

        // Split the text into display lines.
        let mut done: Vec<String> = Vec::new();
        let mut cur: Vec<u8> = Vec::new();
        let mut j: usize = 0;
        while j < n
            invariant
                n == bytes@.len(),
                j <= n,
                split_lf(bytes@.take(j as int)).len() == done@.len() + 1,
                forall|k: int|
                    0 <= k < done@.len() ==> done@[k]@ == lossy_text(
                        strip_one_cr(split_lf(bytes@.take(j as int))[k]),
                    ),
                cur@ == split_lf(bytes@.take(j as int)).last(),
            decreases n - j,
        {
            let ghost prefix = bytes@.take(j as int);
            let ghost prefix1 = bytes@.take(j + 1);
            proof {
                assert(prefix1.drop_last() =~= prefix);
                assert(prefix1.last() == bytes@[j as int]);
            }
            let b = bytes[j];
            if b == 10 {
                if cur.len() > 0 && cur[cur.len() - 1] == 13 {
                    cur.pop();
                }
                done.push(crate::log_store::lossy_string(cur.as_slice()));
                cur = Vec::new();
                proof {
                    assert(split_lf(prefix1) == split_lf(prefix).push(Seq::<u8>::empty()));
                }
            } else {
                cur.push(b);
                proof {
                    let r = split_lf(prefix);
                    assert(split_lf(prefix1) == r.update(r.len() - 1, r.last().push(b)));
                }
            }
            j = j + 1;
        }
        proof {
            assert(bytes@.take(n as int) =~= bytes@);
        }
        if n > 0 && bytes[n - 1] != 10 {
            done.push(crate::log_store::lossy_string(cur.as_slice()));
            proof {
                assert(split_lf(bytes@).last() == cur@);
                assert(forall|k: int|
                    0 <= k < text_lines(bytes@).len() ==> done@[k]@ == lossy_text(
                        text_lines(bytes@)[k],
                    ));
            }
        } else {
            proof {
                assert(forall|k: int|
                    0 <= k < text_lines(bytes@).len() ==> done@[k]@ == lossy_text(
                        text_lines(bytes@)[k],
                    ));
            }
        }
        self.total_lines = if done.len() == 0 {
            1
        } else {
            done.len()
        };
        self.content = Some(done);
    }

    /// Show a substitute message (an unreadable or oversized file) in place
    /// of contents.
    pub fn set_message(&mut self, path: String, message: String)
        ensures
            final(self).path matches Some(p) && p@ == path@,
            final(self).scroll == 0,
            final(self).content matches Some(c) && line_views(c@) =~= seq![message@],
            final(self).total_lines == 1,
    {
        self.path = Some(path);
        self.scroll = 0;
        let mut content: Vec<String> = Vec::new();
        content.push(message);
        proof {
            assert(line_views(content@) =~= seq![message@]);
        }
        self.content = Some(content);
        self.total_lines = 1;
    }

    pub fn clear(&mut self)
        ensures
            final(self).path is None,
            final(self).content is None,
            final(self).scroll == 0,
            final(self).total_lines == 0,
    {
        self.path = None;
        self.content = None;
        self.scroll = 0;
        self.total_lines = 0;
    }

    pub fn scroll_up(&mut self)
        ensures
            final(self).scroll == (if old(self).scroll > 0 {
                old(self).scroll - 1
            } else {
                0int
            }),
            final(self).path == old(self).path,
            final(self).content == old(self).content,
            final(self).total_lines == old(self).total_lines,
    {
        if self.scroll > 0 {
            self.scroll = self.scroll - 1;
        }
    }

    /// Scroll down one line, but never past the point where the last line
    /// is already visible.
    pub fn scroll_down(&mut self, visible_height: usize)
        ensures
            final(self).scroll == (if old(self).total_lines > visible_height && old(self).scroll
                + visible_height < old(self).total_lines {
                old(self).scroll + 1
            } else {
                old(self).scroll as int
            }),
            final(self).path == old(self).path,
            final(self).content == old(self).content,
            final(self).total_lines == old(self).total_lines,
    {
        if self.total_lines > visible_height && self.scroll < self.total_lines - visible_height {
            self.scroll = self.scroll + 1;
        }
    }

    /// The lines visible at the current scroll position, joined for display;
    /// a placeholder when no file is loaded.
    pub fn visible_content(&self, visible_height: usize) -> (r: String)
        ensures
            self.content matches Some(c) ==> r@ == join_lines(
                visible_window(line_views(c@), self.scroll as int, visible_height as int),
            ),
            self.content is None ==> r@ == "(ファイル未選択)"@,
    {
        match &self.content {
            Some(lines) => {
                let ghost lvs = line_views(lines@);
                let ghost w = visible_window(lvs, self.scroll as int, visible_height as int);
                let start = if self.scroll < lines.len() {
                    self.scroll
                } else {
                    lines.len()
                };
                let end = if visible_height < lines.len() - start {
                    start + visible_height
                } else {
                    lines.len()
                };
                let mut out = String::new();
                let mut k: usize = start;
                proof {
                    assert(w =~= lvs.subrange(start as int, end as int));
                    assert(w.take(0) =~= Seq::<Seq<char>>::empty());
                }
                while k < end
                    invariant
                        lvs == line_views(lines@),
                        w == visible_window(lvs, self.scroll as int, visible_height as int),
                        w == lvs.subrange(start as int, end as int),
                        start <= k <= end,
                        end <= lines@.len(),
                        lvs.len() == lines@.len(),
                        out@ == join_lines(w.take(k - start)),
                    decreases end - k,
                {
                    proof {
                        assert(w.take(k - start + 1).drop_last() =~= w.take(k - start));
                        assert(w.take(k - start + 1).last() == lvs[k as int]);
                        assert(lvs[k as int] == lines@[k as int]@);
                    }
                    if k > start {
                        out.append("\n");
                    }
                    out.append(lines[k].as_str());
                    k = k + 1;
                }
                proof {
                    assert(w.take(end - start) =~= w);
                }
                out
            },
            None => "(ファイル未選択)".to_owned(),
        }
    }
}

} // verus!
