//! Per-session, line-oriented log buffers that reassemble a raw byte stream
//! into complete text lines.
//!
//! A chunk of output may split at an arbitrary point, including mid-line.
//! `append` splits each chunk on line feeds, strips the trailing carriage
//! returns of every fragment, lets the first fragment continue the line that
//! the previous chunk left unfinished, and starts a new line for each later
//! fragment. A buffer is capped at [`MAX_LINES`] retained lines; the oldest
//! lines are evicted first.

use vstd::prelude::*;
use std::collections::HashMap;

verus! {

/// Maximum number of retained lines per session.
pub const MAX_LINES: usize = 10000;

/// `s` without its trailing carriage returns.
pub open spec fn trim_cr(s: Seq<u8>) -> Seq<u8>
    decreases s.len(),
{
    if s.len() > 0 && s.last() == 13 {
        trim_cr(s.drop_last())
    } else {
        s
    }
}

/// `s` split on line feeds; always at least one fragment, and one more
/// fragment than there are line feeds (a trailing line feed yields a final
/// empty fragment).
pub open spec fn split_lf(s: Seq<u8>) -> Seq<Seq<u8>>
    decreases s.len(),
{
    if s.len() == 0 {
        seq![Seq::<u8>::empty()]
    } else if s.last() == 10 {
        split_lf(s.drop_last()).push(Seq::<u8>::empty())
    } else {
        let r = split_lf(s.drop_last());
        r.update(r.len() - 1, r.last().push(s.last()))
    }
}

/// The fragments of one chunk: split on line feeds, each fragment with its
/// trailing carriage returns stripped.
pub open spec fn chunk_fragments(s: Seq<u8>) -> Seq<Seq<u8>> {
    split_lf(s).map_values(|p: Seq<u8>| trim_cr(p))
}

/// Merge the fragments of one chunk into a line buffer: the first fragment
/// extends the unfinished last line, each later fragment becomes a new line.
pub open spec fn merge_lines(lines: Seq<Seq<u8>>, parts: Seq<Seq<u8>>) -> Seq<Seq<u8>> {
    if lines.len() == 0 {
        parts
    } else {
        lines.update(lines.len() - 1, lines.last() + parts[0]) + parts.subrange(
            1,
            parts.len() as int,
        )
    }
}

/// Evict the oldest lines until at most [`MAX_LINES`] remain.
pub open spec fn cap_lines(lines: Seq<Seq<u8>>) -> Seq<Seq<u8>> {
    if lines.len() > MAX_LINES {
        lines.skip(lines.len() - MAX_LINES as int)
    } else {
        lines
    }
}

/// The full effect of appending one chunk to a session's line buffer.
pub open spec fn append_chunk(lines: Seq<Seq<u8>>, data: Seq<u8>) -> Seq<Seq<u8>> {
    cap_lines(merge_lines(lines, chunk_fragments(data)))
}

/// The retained lines of a session in a store; an absent session has none.
pub open spec fn session_lines(m: Map<u128, Seq<Seq<u8>>>, id: u128) -> Seq<Seq<u8>> {
    if m.contains_key(id) {
        m[id]
    } else {
        Seq::<Seq<u8>>::empty()
    }
}

/// The most recent line that is not empty, if any.
pub open spec fn last_non_empty(lines: Seq<Seq<u8>>) -> Option<Seq<u8>>
    decreases lines.len(),
{
    if lines.len() == 0 {
        None
    } else if lines.last().len() > 0 {
        Some(lines.last())
    } else {
        last_non_empty(lines.drop_last())
    }
}

pub open spec fn views_of(v: Seq<Vec<u8>>) -> Seq<Seq<u8>> {
    v.map_values(|x: Vec<u8>| x@)
}

/// The text that a sequence of raw bytes displays as.
pub uninterp spec fn lossy_text(bytes: Seq<u8>) -> Seq<char>;

/// Relies on String::from_utf8_lossy: decodes bytes as UTF-8 with invalid
/// sequences replaced, never rejected; the result is a function of the bytes
/// alone, and is empty exactly when the input is empty.
#[verifier::external_body]
pub(crate) fn lossy_string(bytes: &[u8]) -> (r: String)
    ensures
        r@ == lossy_text(bytes@),
        r@.len() == 0 <==> bytes@.len() == 0,
{
    String::from_utf8_lossy(bytes).into_owned()
}

/// In-memory map from session id to its retained log lines, stored as the
/// raw bytes of each line.
pub struct LogStore {
    logs: HashMap<u128, Vec<Vec<u8>>>,
}

impl View for LogStore {
    type V = Map<u128, Seq<Seq<u8>>>;

    closed spec fn view(&self) -> Map<u128, Seq<Seq<u8>>> {
        Map::new(|id: u128| self.logs@.contains_key(id), |id: u128| views_of(self.logs@[id]@))
    }
}

/// Remove the trailing carriage returns of one line in place.
fn trim_trailing_cr(v: &mut Vec<u8>)
    ensures
        final(v)@ == trim_cr(old(v)@),
{
    while v.len() > 0 && v[v.len() - 1] == 13
        invariant
            trim_cr(v@) == trim_cr(old(v)@),
        decreases v.len(),
    {
        v.pop();
    }
}

impl LogStore {
    pub fn new() -> (store: LogStore)
        ensures
            store@ == Map::<u128, Seq<Seq<u8>>>::empty(),
    {
        let store = LogStore { logs: HashMap::new() };
        proof {
            broadcast use vstd::std_specs::hash::group_hash_axioms;

            assert(store@ =~= Map::<u128, Seq<Seq<u8>>>::empty());
        }
        store
    }

    /// Append one chunk of raw output to the session's buffer, reassembling
    /// lines across chunk boundaries and evicting the oldest lines beyond
    /// the cap.
    pub fn append(&mut self, session_id: u128, data: &[u8])
        ensures
            final(self)@ == old(self)@.insert(
                session_id,
                append_chunk(session_lines(old(self)@, session_id), data@),
            ),
    {
        proof {
            broadcast use vstd::std_specs::hash::group_hash_axioms;

        }
        // Split the chunk on line feeds, trimming each completed fragment.
        let mut frags: Vec<Vec<u8>> = Vec::new();
        let mut cur: Vec<u8> = Vec::new();
        let n = data.len();
        let mut i: usize = 0;
        while i < n
            invariant
                n == data@.len(),
                i <= n,
                split_lf(data@.take(i as int)).len() == frags@.len() + 1,
                forall|k: int|
                    0 <= k < frags@.len() ==> frags@[k]@ == trim_cr(
                        split_lf(data@.take(i as int))[k],
                    ),
                cur@ == split_lf(data@.take(i as int)).last(),
            decreases n - i,
        {
            let ghost prefix = data@.take(i as int);
            let ghost prefix1 = data@.take(i + 1);
            proof {
                assert(prefix1.drop_last() =~= prefix);
                assert(prefix1.last() == data@[i as int]);
            }
            let b = data[i];
            if b == 10 {
                trim_trailing_cr(&mut cur);
                frags.push(cur);
                cur = Vec::new();
                proof {
                    assert(split_lf(prefix1) == split_lf(prefix).push(Seq::<u8>::empty()));
                }
            } else {
                cur.push(b);
                proof {
                    let r = split_lf(prefix);
                    assert(split_lf(prefix1) == r.update(r.len() - 1, r.last().push(b)));
                }
            }
            i = i + 1;
        }
        trim_trailing_cr(&mut cur);
        frags.push(cur);
        let ghost all_frags = chunk_fragments(data@);
        proof {
            assert(data@.take(n as int) =~= data@);
            assert(all_frags.len() == split_lf(data@).len());
            assert(forall|k: int|
                0 <= k < all_frags.len() ==> all_frags[k] == trim_cr(split_lf(data@)[k]));
            assert(frags@.len() == all_frags.len());
            assert(forall|k: int| 0 <= k < frags@.len() ==> frags@[k]@ == all_frags[k]);
        }

        // Fetch the session's buffer and merge the fragments into it.
        let ghost old_lines = session_lines(old(self)@, session_id);
        let mut buf: Vec<Vec<u8>> = match self.logs.remove(&session_id) {
            Some(v) => v,
            None => Vec::new(),
        };
        proof {
            assert(buf@.len() == old_lines.len());
            assert(forall|k: int| 0 <= k < buf@.len() ==> buf@[k]@ == old_lines[k]);
        }
        let ghost target = merge_lines(old_lines, all_frags);
        if buf.len() == 0 {
            buf = frags;
            proof {
                assert(buf@.len() == target.len());
                assert(forall|k: int| 0 <= k < buf@.len() ==> buf@[k]@ == target[k]);
            }
        } else {
            let mut first = frags.remove(0);
            let mut last_line = match buf.pop() {
                Some(l) => l,
                None => Vec::new(),
            };
            last_line.append(&mut first);
            buf.push(last_line);
            proof {
                assert(target.len() == old_lines.len() + all_frags.len() - 1);
                assert(buf@.len() + frags@.len() == target.len());
                assert(buf@[buf@.len() - 1]@ == old_lines.last() + all_frags[0]);
                assert(forall|k: int| 0 <= k < buf@.len() ==> buf@[k]@ == target[k]);
                assert(forall|k: int|
                    0 <= k < frags@.len() ==> frags@[k]@ == target[buf@.len() + k]);
            }
            while frags.len() > 0
                invariant
                    buf@.len() + frags@.len() == target.len(),
                    forall|k: int| 0 <= k < buf@.len() ==> buf@[k]@ == target[k],
                    forall|k: int|
                        0 <= k < frags@.len() ==> frags@[k]@ == target[buf@.len() + k],
                decreases frags@.len(),
            {
                let next = frags.remove(0);
                buf.push(next);
            }
        }
        proof {
            assert(buf@.len() == target.len());
            assert(forall|k: int| 0 <= k < buf@.len() ==> buf@[k]@ == target[k]);
        }

        // Evict the oldest lines beyond the cap.
        if buf.len() > MAX_LINES {
            let excess = buf.len() - MAX_LINES;
            let tail = buf.split_off(excess);
            buf = tail;
        }
        proof {
            assert(buf@.len() == cap_lines(target).len());
            assert(forall|k: int| 0 <= k < buf@.len() ==> buf@[k]@ == cap_lines(target)[k]);
        }

        self.logs.insert(session_id, buf);
        proof {
            assert(views_of(buf@) =~= cap_lines(target));
            assert(final(self)@ =~= old(self)@.insert(
                session_id,
                append_chunk(old_lines, data@),
            ));
        }
    }

    /// The retained lines of one session, oldest first, decoded as text.
    pub fn lines(&self, session_id: u128) -> (r: Vec<String>)
        ensures
            r@.len() == session_lines(self@, session_id).len(),
            forall|k: int|
                0 <= k < r@.len() ==> r@[k]@ == lossy_text(session_lines(self@, session_id)[k]),
    {
        proof {
            broadcast use vstd::std_specs::hash::group_hash_axioms;

        }
        let ghost ls = session_lines(self@, session_id);
        let mut r: Vec<String> = Vec::new();
        match self.logs.get(&session_id) {
            Some(buf) => {
                let mut k: usize = 0;
                while k < buf.len()
                    invariant
                        buf@.len() == ls.len(),
                        forall|j: int| 0 <= j < ls.len() ==> buf@[j]@ == ls[j],
                        k <= ls.len(),
                        r@.len() == k,
                        forall|j: int| 0 <= j < k ==> r@[j]@ == lossy_text(ls[j]),
                    decreases buf@.len() - k,
                {
                    r.push(lossy_string(buf[k].as_slice()));
                    k = k + 1;
                }
                r
            },
            None => r,
        }
    }

    /// The most recent non-empty line of one session, decoded as text, used
    /// by the needs-input heuristic so that trailing blank lines do not mask
    /// a prompt. `None` when every retained line is empty or no data was
    /// ever appended.
    pub fn last_non_empty_line(&self, session_id: u128) -> (r: Option<String>)
        ensures
            r is Some <==> last_non_empty(session_lines(self@, session_id)) is Some,
            r matches Some(s) ==> s@ == lossy_text(
                last_non_empty(session_lines(self@, session_id)).unwrap(),
            ) && s@.len() > 0,
    {
        match self.last_non_empty_bytes(session_id) {
            Some(l) => Some(lossy_string(l.as_slice())),
            None => None,
        }
    }

    /// The most recent non-empty line of one session as raw bytes.
    pub fn last_non_empty_bytes(&self, session_id: u128) -> (r: Option<Vec<u8>>)
        ensures
            r is Some <==> last_non_empty(session_lines(self@, session_id)) is Some,
            r matches Some(l) ==> Some(l@) == last_non_empty(session_lines(self@, session_id))
                && l@.len() > 0,
    {
        proof {
            broadcast use vstd::std_specs::hash::group_hash_axioms;

        }
        let ghost ls = session_lines(self@, session_id);
        match self.logs.get(&session_id) {
            Some(buf) => {
                proof {
                    assert(ls.take(ls.len() as int) =~= ls);
                }
                let mut k: usize = buf.len();
                while k > 0
                    invariant
                        ls == session_lines(self@, session_id),
                        buf@.len() == ls.len(),
                        forall|j: int| 0 <= j < ls.len() ==> buf@[j]@ == ls[j],
                        k <= ls.len(),
                        last_non_empty(ls) == last_non_empty(ls.take(k as int)),
                    decreases k,
                {
                    proof {
                        assert(ls.take(k as int).last() == ls[k - 1]);
                        assert(ls.take(k as int).drop_last() =~= ls.take(k - 1));
                    }
                    if buf[k - 1].len() > 0 {
                        let line = clone_bytes(&buf[k - 1]);
                        proof {
                            assert(last_non_empty(ls.take(k as int)) == Some(ls[k - 1]));
                        }
                        return Some(line);
                    }
                    k = k - 1;
                }
                proof {
                    assert(ls.take(0) =~= Seq::<Seq<u8>>::empty());
                }
                None
            },
            None => None,
        }
    }
}

/// Copy one line of bytes.
pub(crate) fn clone_bytes(v: &Vec<u8>) -> (r: Vec<u8>)
    ensures
        r@ == v@,
{
    let mut r: Vec<u8> = Vec::new();
    let mut i: usize = 0;
    while i < v.len()
        invariant
            i <= v@.len(),
            r@ =~= v@.take(i as int),
        decreases v@.len() - i,
    {
        r.push(v[i]);
        proof {
            assert(r@ =~= v@.take(i + 1));
        }
        i = i + 1;
    }
    proof {
        assert(v@.take(v@.len() as int) =~= v@);
    }
    r
}


/// All chunks of a stream, concatenated.
pub open spec fn concat_chunks(chunks: Seq<Seq<u8>>) -> Seq<u8>
    decreases chunks.len(),
{
    if chunks.len() == 0 {
        Seq::<u8>::empty()
    } else {
        concat_chunks(chunks.drop_last()) + chunks.last()
    }
}

/// Retained lines joined by line feeds.
pub open spec fn join_lf(lines: Seq<Seq<u8>>) -> Seq<u8>
    decreases lines.len(),
{
    if lines.len() == 0 {
        Seq::<u8>::empty()
    } else if lines.len() == 1 {
        lines[0]
    } else {
        join_lf(lines.drop_last()) + seq![10u8] + lines.last()
    }
}

/// `s` with every carriage return removed.
pub open spec fn remove_cr(s: Seq<u8>) -> Seq<u8>
    decreases s.len(),
{
    if s.len() == 0 {
        Seq::<u8>::empty()
    } else if s.last() == 13 {
        remove_cr(s.drop_last())
    } else {
        remove_cr(s.drop_last()).push(s.last())
    }
}

/// `s` with every carriage return that immediately precedes a line feed
/// removed.
pub open spec fn strip_cr_before_lf(s: Seq<u8>) -> Seq<u8>
    decreases s.len(),
{
    if s.len() == 0 {
        Seq::<u8>::empty()
    } else if s.len() >= 2 && s.last() == 10 && s[s.len() - 2] == 13 {
        strip_cr_before_lf(s.take(s.len() - 2)).push(10)
    } else {
        strip_cr_before_lf(s.drop_last()).push(s.last())
    }
}

/// Every carriage return is immediately followed by a line feed.
pub open spec fn crlf_clean(s: Seq<u8>) -> bool {
    forall|i: int| 0 <= i < s.len() && #[trigger] s[i] == 13 ==> i + 1 < s.len() && s[i + 1] == 10
}

/// Every carriage return is immediately followed by a line feed or ends the
/// sequence.
pub open spec fn mid_clean(s: Seq<u8>) -> bool {
    forall|i: int|
        0 <= i < s.len() && #[trigger] s[i] == 13 ==> (i + 1 < s.len() && s[i + 1] == 10) || i
            == s.len() - 1
}

/// The line buffer obtained by merging a whole stream of chunks, without the
/// retention cap.
pub open spec fn fold_merge(chunks: Seq<Seq<u8>>) -> Seq<Seq<u8>>
    decreases chunks.len(),
{
    if chunks.len() == 0 {
        Seq::<Seq<u8>>::empty()
    } else {
        merge_lines(fold_merge(chunks.drop_last()), chunk_fragments(chunks.last()))
    }
}

/// The line buffer a fresh session holds after appending a whole stream of
/// chunks, cap included: the fold of [`append_chunk`].
pub open spec fn replay_chunks(chunks: Seq<Seq<u8>>) -> Seq<Seq<u8>>
    decreases chunks.len(),
{
    if chunks.len() == 0 {
        Seq::<Seq<u8>>::empty()
    } else {
        append_chunk(replay_chunks(chunks.drop_last()), chunks.last())
    }
}

proof fn lemma_split_lf_len(s: Seq<u8>)
    ensures
        split_lf(s).len() >= 1,
    decreases s.len(),
{
    if s.len() > 0 {
        lemma_split_lf_len(s.drop_last());
    }
}

proof fn lemma_trim_id(s: Seq<u8>)
    requires
        s.len() == 0 || s.last() != 13,
    ensures
        trim_cr(s) == s,
{
}

proof fn lemma_remove_cr_concat(a: Seq<u8>, b: Seq<u8>)
    ensures
        remove_cr(a + b) == remove_cr(a) + remove_cr(b),
    decreases b.len(),
{
    if b.len() == 0 {
        assert(a + b =~= a);
        assert(remove_cr(a) + remove_cr(b) =~= remove_cr(a));
    } else {
        assert((a + b).drop_last() =~= a + b.drop_last());
        assert((a + b).last() == b.last());
        lemma_remove_cr_concat(a, b.drop_last());
        if b.last() == 13 {
        } else {
            assert(remove_cr(a) + remove_cr(b) =~= (remove_cr(a) + remove_cr(
                b.drop_last(),
            )).push(b.last()));
        }
    }
}

/// Joining distributes over the merge of a chunk's fragments: the first
/// fragment glues onto the last line without a separator, so the join of the
/// merged buffer is the join of the old buffer followed by the join of the
/// fragments.
proof fn lemma_join_merge(lines: Seq<Seq<u8>>, parts: Seq<Seq<u8>>)
    requires
        parts.len() >= 1,
    ensures
        join_lf(merge_lines(lines, parts)) == join_lf(lines) + join_lf(parts),
    decreases parts.len(),
{
    if lines.len() == 0 {
        assert(join_lf(lines) + join_lf(parts) =~= join_lf(parts));
    } else if parts.len() == 1 {
        let m = merge_lines(lines, parts);
        assert(m =~= lines.update(lines.len() - 1, lines.last() + parts[0]));
        assert(m.drop_last() =~= lines.drop_last());
        assert(m.last() == lines.last() + parts[0]);
        assert(join_lf(parts) == parts[0]);
        if lines.len() == 1 {
            assert(join_lf(m) == m.last());
            assert(join_lf(lines) == lines.last());
        } else {
            assert(join_lf(m) == join_lf(lines.drop_last()) + seq![10u8] + (lines.last()
                + parts[0]));
            assert(join_lf(lines) + parts[0] =~= join_lf(lines.drop_last()) + seq![10u8] + (
            lines.last() + parts[0]));
        }
    } else {
        let q = parts.drop_last();
        let x = parts.last();
        let mq = merge_lines(lines, q);
        lemma_join_merge(lines, q);
        assert(merge_lines(lines, parts) =~= mq.push(x));
        assert(mq.len() >= 1);
        assert(join_lf(mq.push(x)) == join_lf(mq) + seq![10u8] + x) by {
            assert(mq.push(x).drop_last() =~= mq);
            assert(mq.push(x).last() == x);
        }
        assert(join_lf(parts) == join_lf(q) + seq![10u8] + x);
        assert(join_lf(lines) + join_lf(parts) =~= (join_lf(lines) + join_lf(q)) + seq![10u8]
            + x);
    }
}

proof fn lemma_mid_clean_split(a: Seq<u8>, b: Seq<u8>)
    requires
        mid_clean(a + b),
    ensures
        mid_clean(a),
        mid_clean(b),
{
    let s = a + b;
    assert forall|i: int| 0 <= i < a.len() && #[trigger] a[i] == 13 implies (i + 1 < a.len() && a[i
        + 1] == 10) || i == a.len() - 1 by {
        assert(s[i] == a[i]);
        if i < a.len() - 1 {
            assert(s[i + 1] == a[i + 1]);
        }
    }
    assert forall|i: int| 0 <= i < b.len() && #[trigger] b[i] == 13 implies (i + 1 < b.len() && b[i
        + 1] == 10) || i == b.len() - 1 by {
        assert(s[a.len() + i] == b[i]);
        if i < b.len() - 1 {
            assert(s[a.len() + i + 1] == b[i + 1]);
        }
    }
}

/// Splitting a chunk on line feeds and trimming each fragment's carriage
/// returns loses exactly the carriage returns, when every carriage return
/// precedes a line feed or ends the chunk.
proof fn lemma_fragments_join(c: Seq<u8>)
    requires
        mid_clean(c),
    ensures
        join_lf(chunk_fragments(c)) == remove_cr(c),
    decreases c.len(),
{
    lemma_split_lf_len(c);
    if c.len() == 0 {
        assert(chunk_fragments(c) =~= seq![trim_cr(Seq::<u8>::empty())]);
        assert(join_lf(chunk_fragments(c)) == trim_cr(Seq::<u8>::empty()));
    } else {
        let t = c.drop_last();
        let b = c.last();
        assert(mid_clean(t)) by {
            assert forall|i: int| 0 <= i < t.len() && #[trigger] t[i] == 13 implies (i + 1 < t.len()
                && t[i + 1] == 10) || i == t.len() - 1 by {
                assert(c[i] == t[i]);
                if i < t.len() - 1 {
                    assert(c[i + 1] == t[i + 1]);
                } else {
                    if b == 13 {
                        assert(c[i] == 13 && c[i + 1] == 13);
                        assert(false);
                    } else if b != 10 {
                        assert(c[i] == 13 && i + 1 == c.len() - 1 && c[i + 1] != 10);
                        assert(false);
                    }
                }
            }
        }
        lemma_fragments_join(t);
        lemma_split_lf_len(t);
        let ft = chunk_fragments(t);
        if b == 10 {
            assert(split_lf(c) == split_lf(t).push(Seq::<u8>::empty()));
            assert(chunk_fragments(c) =~= ft.push(Seq::<u8>::empty()));
            assert(join_lf(ft.push(Seq::<u8>::empty())) == join_lf(ft) + seq![10u8]
                + Seq::<u8>::empty()) by {
                assert(ft.push(Seq::<u8>::empty()).drop_last() =~= ft);
            }
            assert(remove_cr(c) == remove_cr(t).push(10));
            assert(join_lf(ft) + seq![10u8] + Seq::<u8>::empty() =~= remove_cr(t).push(10));
        } else if b == 13 {
            let r = split_lf(t);
            assert(split_lf(c) == r.update(r.len() - 1, r.last().push(13)));
            assert(trim_cr(r.last().push(13)) == trim_cr(r.last())) by {
                assert(r.last().push(13).drop_last() =~= r.last());
            }
            assert(chunk_fragments(c) =~= ft);
            assert(remove_cr(c) == remove_cr(t));
        } else {
            let r = split_lf(t);
            assert(split_lf(c) == r.update(r.len() - 1, r.last().push(b)));
            // the raw last fragment cannot end in a carriage return, else the
            // next byte would have to be a line feed
            assert(r.last().len() == 0 || r.last().last() != 13) by {
                lemma_split_last_tail(t);
                if r.last().len() > 0 && r.last().last() == 13 {
                    assert(t.len() > 0 && t.last() == 13);
                    assert(c[t.len() - 1] == 13 && c[t.len() as int] == b);
                    assert(false);
                }
            }
            assert(trim_cr(r.last().push(b)) == r.last().push(b)) by {
                lemma_trim_id(r.last().push(b));
            }
            assert(trim_cr(r.last()) == r.last()) by {
                lemma_trim_id(r.last());
            }
            let fc = chunk_fragments(c);
            assert(fc =~= ft.update(ft.len() - 1, ft.last().push(b)));
            assert(join_lf(fc) == join_lf(ft).push(b)) by {
                assert(fc.drop_last() =~= ft.drop_last());
                assert(fc.last() == ft.last().push(b));
                if ft.len() == 1 {
                    assert(join_lf(fc) == fc.last());
                    assert(join_lf(ft) == ft.last());
                    assert(fc.last() =~= join_lf(ft).push(b));
                } else {
                    assert(join_lf(fc) == join_lf(fc.drop_last()) + seq![10u8] + fc.last());
                    assert(join_lf(ft) == join_lf(ft.drop_last()) + seq![10u8] + ft.last());
                    assert(join_lf(fc.drop_last()) + seq![10u8] + fc.last() =~= (join_lf(
                        ft.drop_last(),
                    ) + seq![10u8] + ft.last()).push(b));
                }
            }
            assert(remove_cr(c) == remove_cr(t).push(b));
        }
    }
}

/// If a chunk's raw text ends in some byte, so does its last fragment (or the
/// byte was a line feed and the last fragment is empty).
proof fn lemma_split_last_tail(s: Seq<u8>)
    ensures
        s.len() == 0 ==> split_lf(s).last().len() == 0,
        s.len() > 0 && s.last() == 10 ==> split_lf(s).last().len() == 0,
        s.len() > 0 && s.last() != 10 ==> split_lf(s).last().len() > 0 && split_lf(s).last().last()
            == s.last(),
{
    lemma_split_lf_len(s);
    if s.len() > 0 && s.last() != 10 {
        lemma_split_lf_len(s.drop_last());
    }
}

/// Merging the fragments of one more chunk never shrinks the buffer.
proof fn lemma_fold_merge_monotone(chunks: Seq<Seq<u8>>)
    requires
        chunks.len() > 0,
    ensures
        fold_merge(chunks).len() >= fold_merge(chunks.drop_last()).len(),
        fold_merge(chunks).len() >= 1,
{
    lemma_split_lf_len(chunks.last());
    let lines = fold_merge(chunks.drop_last());
    let parts = chunk_fragments(chunks.last());
    if lines.len() == 0 {
    } else {
        assert(merge_lines(lines, parts).len() == lines.len() + parts.len() - 1);
    }
}

/// Joining two non-empty line blocks inserts exactly one separator between
/// them.
proof fn lemma_join_concat(a: Seq<Seq<u8>>, b: Seq<Seq<u8>>)
    requires
        a.len() > 0,
        b.len() > 0,
    ensures
        join_lf(a + b) == join_lf(a) + seq![10u8] + join_lf(b),
    decreases b.len(),
{
    if b.len() == 1 {
        assert((a + b).drop_last() =~= a);
        assert((a + b).last() == b[0]);
        assert(join_lf(b) == b[0]);
        assert(join_lf(a + b) == join_lf(a) + seq![10u8] + b[0]);
    } else {
        let t = b.drop_last();
        let x = b.last();
        assert(a + b =~= (a + t).push(x));
        lemma_join_concat(a, t);
        assert(join_lf((a + t).push(x)) == join_lf(a + t) + seq![10u8] + x) by {
            assert((a + t).push(x).drop_last() =~= a + t);
        }
        assert(join_lf(b) == join_lf(t) + seq![10u8] + x) by {
            assert(b.drop_last() =~= t);
        }
        assert(join_lf(a) + seq![10u8] + join_lf(b) =~= (join_lf(a) + seq![10u8] + join_lf(t))
            + seq![10u8] + x);
    }
}

/// Merging touches only the end of a buffer, so it commutes with dropping
/// lines from the front.
proof fn lemma_merge_skip(lines: Seq<Seq<u8>>, parts: Seq<Seq<u8>>, e: int)
    requires
        0 <= e < lines.len(),
        parts.len() >= 1,
    ensures
        merge_lines(lines.skip(e), parts) == merge_lines(lines, parts).skip(e),
{
    assert(merge_lines(lines.skip(e), parts) =~= merge_lines(lines, parts).skip(e));
}

/// Appending chunk by chunk (evicting as it goes) keeps exactly the newest
/// lines of the uncapped merge: eviction never has to look back.
proof fn lemma_replay_capped(chunks: Seq<Seq<u8>>)
    ensures
        replay_chunks(chunks) == cap_lines(fold_merge(chunks)),
    decreases chunks.len(),
{
    if chunks.len() > 0 {
        let f = fold_merge(chunks.drop_last());
        let parts = chunk_fragments(chunks.last());
        lemma_replay_capped(chunks.drop_last());
        lemma_split_lf_len(chunks.last());
        if f.len() > MAX_LINES {
            let e = f.len() - MAX_LINES as int;
            assert(cap_lines(f) == f.skip(e));
            lemma_merge_skip(f, parts, e);
            let m = merge_lines(f, parts);
            assert(m.len() == f.len() + parts.len() - 1);
            assert(m.skip(e).len() >= MAX_LINES);
            if m.skip(e).len() > MAX_LINES {
                assert(cap_lines(m.skip(e)) == m.skip(e).skip(m.skip(e).len() - MAX_LINES as int));
                assert(m.skip(e).skip(m.skip(e).len() - MAX_LINES as int) =~= m.skip(
                    m.len() - MAX_LINES as int,
                ));
                assert(cap_lines(m) == m.skip(m.len() - MAX_LINES as int));
            } else {
                assert(m.skip(e) =~= m.skip(m.len() - MAX_LINES as int));
                assert(cap_lines(m) == m.skip(m.len() - MAX_LINES as int));
            }
        } else {
            assert(cap_lines(f) == f);
        }
    }
}

proof fn lemma_fold_join(chunks: Seq<Seq<u8>>)
    requires
        mid_clean(concat_chunks(chunks)),
    ensures
        join_lf(fold_merge(chunks)) == remove_cr(concat_chunks(chunks)),
    decreases chunks.len(),
{
    if chunks.len() > 0 {
        let f = chunks.drop_last();
        let c = chunks.last();
        lemma_mid_clean_split(concat_chunks(f), c);
        lemma_fold_join(f);
        lemma_fragments_join(c);
        lemma_split_lf_len(c);
        lemma_join_merge(fold_merge(f), chunk_fragments(c));
        lemma_remove_cr_concat(concat_chunks(f), c);
    }
}

/// Removing every carriage return and removing only those before line feeds
/// agree when every carriage return precedes a line feed.
proof fn lemma_strip_remove(s: Seq<u8>)
    requires
        crlf_clean(s),
    ensures
        strip_cr_before_lf(s) == remove_cr(s),
    decreases s.len(),
{
    if s.len() == 0 {
    } else if s.len() >= 2 && s.last() == 10 && s[s.len() - 2] == 13 {
        let p = s.take(s.len() - 2);
        assert(crlf_clean(p)) by {
            assert forall|i: int| 0 <= i < p.len() && #[trigger] p[i] == 13 implies i + 1 < p.len()
                && p[i + 1] == 10 by {
                assert(s[i] == p[i]);
                assert(s[i + 1] == 10);
                if i + 1 == p.len() {
                    assert(s[i + 1] == 13);
                    assert(false);
                }
                assert(p[i + 1] == s[i + 1]);
            }
        }
        lemma_strip_remove(p);
        assert(s.drop_last() =~= p.push(13));
        assert(s.drop_last().drop_last() =~= p);
        assert(remove_cr(s) == remove_cr(s.drop_last()).push(10));
        assert(s.drop_last().last() == 13);
        assert(remove_cr(s.drop_last()) == remove_cr(s.drop_last().drop_last()));
        assert(remove_cr(s) == remove_cr(p).push(10));
    } else {
        assert(s.last() != 13) by {
            if s.last() == 13 {
                assert(s[s.len() - 1] == 13);
                assert(false);
            }
        }
        let t = s.drop_last();
        assert(crlf_clean(t)) by {
            assert forall|i: int| 0 <= i < t.len() && #[trigger] t[i] == 13 implies i + 1 < t.len()
                && t[i + 1] == 10 by {
                assert(s[i] == t[i]);
                assert(s[i + 1] == 10);
                if i + 1 == t.len() {
                    assert(s.len() >= 2 && s.last() == 10 && s[s.len() - 2] == 13);
                    assert(false);
                }
                assert(t[i + 1] == s[i + 1]);
            }
        }
        lemma_strip_remove(t);
    }
}

/// Reassembly is faithful, eviction included: for any stream of chunks whose
/// carriage returns all precede line feeds, the retained lines joined by
/// line feeds are exactly the concatenation of the chunks with those
/// carriage returns stripped — the whole of it while the buffer stays under
/// the retention cap, and its tail past the evicted lines once the cap is
/// exceeded.
pub proof fn lemma_log_reassembly(chunks: Seq<Seq<u8>>)
    requires
        crlf_clean(concat_chunks(chunks)),
    ensures
        replay_chunks(chunks) == cap_lines(fold_merge(chunks)),
        join_lf(fold_merge(chunks)) == strip_cr_before_lf(concat_chunks(chunks)),
        fold_merge(chunks).len() <= MAX_LINES ==> replay_chunks(chunks) == fold_merge(chunks)
            && join_lf(replay_chunks(chunks)) == strip_cr_before_lf(concat_chunks(chunks)),
        fold_merge(chunks).len() > MAX_LINES ==> strip_cr_before_lf(concat_chunks(chunks))
            == join_lf(fold_merge(chunks).take(fold_merge(chunks).len() - MAX_LINES as int))
            + seq![10u8] + join_lf(replay_chunks(chunks)),
{
    lemma_replay_capped(chunks);
    assert(mid_clean(concat_chunks(chunks)));
    lemma_fold_join(chunks);
    lemma_strip_remove(concat_chunks(chunks));
    let f = fold_merge(chunks);
    if f.len() > MAX_LINES {
        let e = f.len() - MAX_LINES as int;
        assert(f =~= f.take(e) + f.skip(e));
        lemma_join_concat(f.take(e), f.skip(e));
        assert(join_lf(f) == join_lf(f.take(e)) + seq![10u8] + join_lf(f.skip(e)));
        assert(replay_chunks(chunks) == f.skip(e));
    }
}

/// The defining property of the newest non-empty line: nothing when every
/// retained line is empty, and otherwise the most recent line that is not
/// empty, skipping the trailing empty lines.
pub proof fn lemma_last_non_empty(lines: Seq<Seq<u8>>)
    ensures
        last_non_empty(lines) is None <==> (forall|i: int|
            0 <= i < lines.len() ==> lines[i].len() == 0),
        last_non_empty(lines) matches Some(l) ==> exists|i: int|
            0 <= i < lines.len() && lines[i] == l && l.len() > 0 && (forall|j: int|
                i < j < lines.len() ==> lines[j].len() == 0),
    decreases lines.len(),
{
    if lines.len() > 0 {
        lemma_last_non_empty(lines.drop_last());
        if lines.last().len() > 0 {
            let i = lines.len() - 1;
            assert(0 <= i < lines.len() && lines[i] == lines.last() && lines.last().len() > 0 && (
            forall|j: int| i < j < lines.len() ==> lines[j].len() == 0));
        } else {
            if last_non_empty(lines.drop_last()) is Some {
                let l = last_non_empty(lines.drop_last()).unwrap();
                let i = choose|i: int|
                    0 <= i < lines.drop_last().len() && lines.drop_last()[i] == l && l.len() > 0
                        && (forall|j: int|
                        i < j < lines.drop_last().len() ==> lines.drop_last()[j].len() == 0);
                assert(lines[i] == l);
                assert forall|j: int| i < j < lines.len() implies lines[j].len() == 0 by {
                    if j < lines.len() - 1 {
                        assert(lines.drop_last()[j].len() == 0);
                    }
                }
                assert(0 <= i < lines.len() && lines[i] == l && l.len() > 0 && (forall|j: int|
                    i < j < lines.len() ==> lines[j].len() == 0));
            } else {
                assert forall|i: int| 0 <= i < lines.len() implies lines[i].len() == 0 by {
                    if i < lines.len() - 1 {
                        assert(lines.drop_last()[i].len() == 0);
                    }
                }
            }
        }
    }
}

} // verus!
