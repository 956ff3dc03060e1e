//! Task counts for a project's external issue tracker.
//!
//! The tracker itself (running its command-line tool, parsing its output) is
//! an external collaborator; this module only counts: given the status of
//! every listed task, how many there are and how many are closed.

use vstd::prelude::*;

verus! {

/// Completed and total task counts for one session's project.
pub struct BrTaskInfo {
    pub done: usize,
    pub total: usize,
}

/// How many of the statuses are the text `closed`.
pub open spec fn count_closed(statuses: Seq<Seq<char>>) -> int
    decreases statuses.len(),
{
    if statuses.len() == 0 {
        0
    } else {
        count_closed(statuses.drop_last()) + if statuses.last() == "closed"@ {
            1int
        } else {
            0int
        }
    }
}

proof fn lemma_count_closed_bound(statuses: Seq<Seq<char>>)
    ensures
        0 <= count_closed(statuses) <= statuses.len(),
    decreases statuses.len(),
{
    if statuses.len() > 0 {
        lemma_count_closed_bound(statuses.drop_last());
    }
}

impl BrTaskInfo {
    /// Count the tasks of a tracker listing by their status texts.
    pub fn from_statuses(statuses: &Vec<String>) -> (r: BrTaskInfo)
        ensures
            r.total == statuses@.len(),
            r.done == count_closed(statuses@.map_values(|s: String| s@)),
    {
        let ghost sts = statuses@.map_values(|s: String| s@);
        let closed: String = "closed".to_owned();
        let mut done: usize = 0;
        let mut i: usize = 0;
        while i < statuses.len()
            invariant
                i <= statuses@.len(),
                sts == statuses@.map_values(|s: String| s@),
                sts.len() == statuses@.len(),
                closed@ == "closed"@,
                done == count_closed(sts.take(i as int)),
                done <= i,
            decreases statuses@.len() - i,
        {
            proof {
                assert(sts.take(i + 1).drop_last() =~= sts.take(i as int));
                assert(sts.take(i + 1).last() == sts[i as int]);
                assert(sts[i as int] == statuses@[i as int]@);
            }
            if statuses[i] == closed {
                done = done + 1;
            }
            i = i + 1;
        }
        proof {
            assert(sts.take(sts.len() as int) =~= sts);
        }
        BrTaskInfo { done, total: statuses.len() }
    }
}

} // verus!
