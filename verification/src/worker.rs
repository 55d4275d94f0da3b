//! Per-worker crawl state: a static chunk of the seed frontier and the
//! depth-first work list for the seed currently being processed.

use vstd::prelude::*;
use crate::links::resolve_of;

verus! {

/// A planned or performed visit of one URL, at its distance (in
/// link-following hops) from the seed it was discovered under.  Seeds are at
/// zero hops.
pub struct Visit {
    pub url: Seq<char>,
    pub hops: u32,
}

/// A pending crawl item on a worker's work list.
pub struct Entry {
    pub url: String,
    pub hops: u32,
}

impl View for Entry {
    type V = Visit;

    open spec fn view(&self) -> Visit {
        Visit { url: self.url@, hops: self.hops }
    }
}

/// One worker of the pool.
///
/// A worker owns a contiguous chunk of the seed frontier; it takes one seed
/// at a time and crawls that seed's subtree depth-first through `stack`
/// before reporting the seed as completed.  Chunks are static: a worker
/// never takes work from another worker's chunk.
pub struct Worker {
    /// The chunk of seed URLs assigned to this worker.
    pub queue: Vec<String>,
    /// How many seeds of the chunk have been started.
    pub qidx: usize,
    /// Depth-first work list for the seed currently being processed.
    pub stack: Vec<Entry>,
    /// Whether a started seed has not yet been reported as completed.
    pub seed_active: bool,
}

impl Worker {
    /// Basic consistency of the worker's counters.
    pub open spec fn wf(self) -> bool {
        &&& self.qidx <= self.queue.len()
        &&& (self.seed_active ==> self.qidx >= 1)
    }

    /// A worker that has not started any seed yet.
    pub open spec fn fresh(self) -> bool {
        &&& self.qidx == 0
        &&& !self.seed_active
        &&& self.stack@.len() == 0
    }

    /// A worker whose whole chunk has been processed.
    pub open spec fn fully_done(self) -> bool {
        &&& self.qidx == self.queue.len()
        &&& !self.seed_active
        &&& self.stack@.len() == 0
    }

    /// How many of this worker's seeds have been fully processed.
    pub open spec fn done_seeds(self) -> int {
        self.qidx - if self.seed_active {
            1int
        } else {
            0int
        }
    }

    /// A fresh worker for one chunk of the frontier.
    pub fn new(queue: Vec<String>) -> (r: Worker)
        ensures
            r.queue == queue,
            r.wf(),
            r.fresh(),
    {
        Worker { queue, qidx: 0, stack: Vec::new(), seed_active: false }
    }
}

/// The number of seeds, over all workers, that have been fully processed.
pub open spec fn done_count(ws: Seq<Worker>) -> int
    decreases ws.len(),
{
    if ws.len() == 0 {
        0
    } else {
        done_count(ws.drop_last()) + ws.last().done_seeds()
    }
}

/// The number of seeds assigned over all workers.
pub open spec fn seed_count(ws: Seq<Worker>) -> int
    decreases ws.len(),
{
    if ws.len() == 0 {
        0
    } else {
        seed_count(ws.drop_last()) + ws.last().queue@.len()
    }
}

/// The workers' chunks, concatenated in worker order.
pub open spec fn queues_concat(ws: Seq<Worker>) -> Seq<Seq<char>>
    decreases ws.len(),
{
    if ws.len() == 0 {
        Seq::empty()
    } else {
        queues_concat(ws.drop_last()) + ws.last().queue.deep_view()
    }
}

/// Replacing one worker shifts `done_count` by that worker's own share.
pub proof fn lemma_done_count_update(ws: Seq<Worker>, i: int, w: Worker)
    requires
        0 <= i < ws.len(),
    ensures
        done_count(ws.update(i, w)) == done_count(ws) - ws[i].done_seeds() + w.done_seeds(),
    decreases ws.len(),
{
    let up = ws.update(i, w);
    if i == ws.len() - 1 {
        assert(up.drop_last() =~= ws.drop_last());
    } else {
        assert(up.drop_last() =~= ws.drop_last().update(i, w));
        lemma_done_count_update(ws.drop_last(), i, w);
    }
}

/// Replacing one worker with one whose chunk is as long leaves `seed_count`
/// unchanged.
pub proof fn lemma_seed_count_update(ws: Seq<Worker>, i: int, w: Worker)
    requires
        0 <= i < ws.len(),
        w.queue@.len() == ws[i].queue@.len(),
    ensures
        seed_count(ws.update(i, w)) == seed_count(ws),
    decreases ws.len(),
{
    let up = ws.update(i, w);
    if i == ws.len() - 1 {
        assert(up.drop_last() =~= ws.drop_last());
    } else {
        assert(up.drop_last() =~= ws.drop_last().update(i, w));
        lemma_seed_count_update(ws.drop_last(), i, w);
    }
}

/// No pool has processed more seeds than it was assigned, and none has
/// processed a negative number.
pub proof fn lemma_done_count_bounds(ws: Seq<Worker>)
    requires
        forall|i: int| 0 <= i < ws.len() ==> (#[trigger] ws[i]).wf(),
    ensures
        0 <= done_count(ws) <= seed_count(ws),
    decreases ws.len(),
{
    if ws.len() > 0 {
        assert(forall|i: int|
            0 <= i < ws.drop_last().len() ==> (#[trigger] ws.drop_last()[i]).wf());
        lemma_done_count_bounds(ws.drop_last());
    }
}

/// A pool whose workers are all fully done has processed every assigned
/// seed.
pub proof fn lemma_done_count_complete(ws: Seq<Worker>)
    requires
        forall|i: int| 0 <= i < ws.len() ==> (#[trigger] ws[i]).fully_done(),
    ensures
        done_count(ws) == seed_count(ws),
    decreases ws.len(),
{
    if ws.len() > 0 {
        assert(forall|i: int|
            0 <= i < ws.drop_last().len() ==> (#[trigger] ws.drop_last()[i]).fully_done());
        lemma_done_count_complete(ws.drop_last());
    }
}

/// A pool of fresh workers has processed no seed.
pub proof fn lemma_done_count_fresh(ws: Seq<Worker>)
    requires
        forall|i: int| 0 <= i < ws.len() ==> (#[trigger] ws[i]).fresh(),
    ensures
        done_count(ws) == 0,
    decreases ws.len(),
{
    if ws.len() > 0 {
        assert(forall|i: int|
            0 <= i < ws.drop_last().len() ==> (#[trigger] ws.drop_last()[i]).fresh());
        lemma_done_count_fresh(ws.drop_last());
    }
}

/// The concatenation of all chunks holds exactly `seed_count` URLs.
pub proof fn lemma_queues_concat_len(ws: Seq<Worker>)
    ensures
        queues_concat(ws).len() == seed_count(ws),
    decreases ws.len(),
{
    if ws.len() > 0 {
        lemma_queues_concat_len(ws.drop_last());
    }
}

/// A work list, viewed entry by entry.
pub open spec fn stack_view(s: Seq<Entry>) -> Seq<Visit> {
    s.map_values(|e: Entry| e@)
}

/// Whether `v` is among a worker's pending work: on its work list, or a
/// seed of its chunk that has not been started.
pub open spec fn pending_in(w: Worker, v: Visit) -> bool {
    ||| stack_view(w.stack@).contains(v)
    ||| (v.hops == 0 && exists|j: int|
        w.qidx <= j < w.queue@.len() && (#[trigger] w.queue@[j])@ == v.url)
}

/// Replacing one worker with one whose chunk is the same leaves the chunk
/// concatenation unchanged.
pub proof fn lemma_queues_concat_update(ws: Seq<Worker>, i: int, w: Worker)
    requires
        0 <= i < ws.len(),
        w.queue == ws[i].queue,
    ensures
        queues_concat(ws.update(i, w)) == queues_concat(ws),
    decreases ws.len(),
{
    let up = ws.update(i, w);
    if i == ws.len() - 1 {
        assert(up.drop_last() =~= ws.drop_last());
    } else {
        assert(up.drop_last() =~= ws.drop_last().update(i, w));
        lemma_queues_concat_update(ws.drop_last(), i, w);
    }
}

/// Every URL of the chunk concatenation lies in some worker's chunk.
pub proof fn lemma_queues_concat_index(ws: Seq<Worker>, k: int)
    requires
        0 <= k < queues_concat(ws).len(),
    ensures
        exists|i: int, j: int|
            #![auto]
            0 <= i < ws.len() && 0 <= j < ws[i].queue@.len() && queues_concat(ws)[k]
                == ws[i].queue@[j]@,
    decreases ws.len(),
{
    let prefix = queues_concat(ws.drop_last());
    if k < prefix.len() {
        lemma_queues_concat_index(ws.drop_last(), k);
        let (i, j) = choose|i: int, j: int|
            #![auto]
            0 <= i < ws.drop_last().len() && 0 <= j < ws.drop_last()[i].queue@.len() && prefix[k]
                == ws.drop_last()[i].queue@[j]@;
        assert(ws[i] == ws.drop_last()[i]);
        assert(queues_concat(ws)[k] == prefix[k]);
    } else {
        let j = k - prefix.len();
        assert(queues_concat(ws)[k] == ws.last().queue.deep_view()[j]);
        assert(ws.last().queue.deep_view()[j] == ws.last().queue@[j]@);
        assert(ws[ws.len() - 1] == ws.last());
    }
}

/// The work-list entries that processing a fetched page pushes: each
/// discovered link, resolved against the page's URL, kept when it resolves
/// and is not yet visited, and placed so that the first link ends up on top
/// of the stack.
pub open spec fn pushed_children(
    base: Seq<char>,
    hlinks: Seq<Seq<char>>,
    visited: Seq<Seq<char>>,
    hops: u32,
) -> Seq<Visit>
    decreases hlinks.len(),
{
    if hlinks.len() == 0 {
        Seq::empty()
    } else {
        let rest = pushed_children(base, hlinks.skip(1), visited, hops);
        match resolve_of(base, hlinks[0]) {
            Some(u) => if !visited.contains(u) {
                rest.push(Visit { url: u, hops })
            } else {
                rest
            },
            None => rest,
        }
    }
}

} // verus!
