//! The task manager: it owns the task record, partitions the seed frontier
//! across a worker pool, decides which URL is fetched next, aggregates
//! progress, and drives the task status state machine.
//!
//! Fetching is network I/O and stays with the caller: the manager hands out
//! one `Action::Fetch` at a time through [`TaskManager::next_action`], and
//! the caller reports each outcome back through
//! [`TaskManager::on_fetch_success`] or [`TaskManager::on_fetch_failure`].

use vstd::prelude::*;
use crate::errors::CrawlError;
use crate::parser::{hrefs_of, readable_of, Parser};
use crate::persist::{encode_lines, split_lines};
use crate::task::{TaskInfo, TaskStatus};
use crate::visited::VisitedSet;
use crate::worker::{
    done_count, pending_in, pushed_children, queues_concat, stack_view, Entry, Visit, Worker,
};

verus! {

/// What the caller of the engine is to do next.
pub enum Action {
    /// Fetch this URL and report the outcome.
    Fetch(String),
    /// No fetch remains: the run is over.
    Done,
}

/// What processing one successfully fetched page yielded.
pub struct PageSummary {
    /// Whether content extraction classified the page as a content page.
    pub is_content_page: bool,
    /// The extracted title; empty when the page is not a content page.
    pub title: Option<String>,
    /// The extracted body text; empty when the page is not a content page.
    pub text: Option<String>,
    /// How many links the page held.
    pub links_found: usize,
}

/// Orchestrates one crawl run end-to-end and keeps the task record
/// consistent with live progress.
pub struct TaskManager {
    /// The shared visited set: at most one fetch per URL per run.
    pub visited: VisitedSet,
    /// The seed frontier of the task.
    pub to_visit: Vec<String>,
    /// The task record, as it is persisted.
    pub task_info: TaskInfo,
    /// The directory name under which the task's state is persisted.
    pub task_dir: String,
    /// The worker pool, one worker per chunk of the frontier.
    pub workers: Vec<Worker>,
    /// The first worker that may still have work; workers before it are
    /// spent.
    pub widx: usize,
    /// Mirror of the process-wide cancellation signal, set once when the
    /// caller observes it.
    pub cancelled: bool,
    /// The visit whose fetch the caller currently performs.
    pub in_flight: Option<Entry>,
    /// The visits handed out for fetching, in order.
    pub fetch_log: Ghost<Seq<Visit>>,
}

impl TaskManager {
    /// All seeds of the frontier, counted.
    pub open spec fn total_seeds(self) -> int {
        self.to_visit@.len() as int
    }

    /// Whether every worker has been given up on: no fetch will be handed
    /// out any more.
    pub open spec fn run_complete(self) -> bool {
        self.widx == self.workers@.len()
    }

    /// The manager's invariant.  Besides basic consistency it carries the
    /// engine's guarantees: the fetch log holds each URL at most once, only
    /// URLs within the depth limit, and only URLs in the visited set;
    /// `progress` equals the number of fully processed seeds; the workers'
    /// chunks are exactly the frontier; and — as long as the run is not
    /// cancelled — every seed that has been started is in the visited set.
    pub open spec fn wf(self) -> bool {
        &&& self.visited.wf()
        &&& self.task_info.wf()
        &&& self.to_visit@.len() <= u32::MAX
        &&& self.widx <= self.workers@.len()
        &&& (forall|i: int| 0 <= i < self.workers@.len() ==> (#[trigger] self.workers@[i]).wf())
        &&& self.task_info.progress as int == done_count(self.workers@)
        &&& (self.task_info.status == TaskStatus::Running ==> queues_concat(self.workers@)
            == self.to_visit.deep_view())
        &&& (!self.cancelled ==> forall|i: int|
            0 <= i < self.widx ==> (#[trigger] self.workers@[i]).fully_done())
        &&& (!self.cancelled ==> forall|i: int, j: int|
            #![trigger self.workers@[i].queue@[j]]
            0 <= i < self.workers@.len() && 0 <= j < self.workers@[i].qidx ==> self.visited.has(
                self.workers@[i].queue@[j]@,
            ))
        &&& (self.task_info.status == TaskStatus::Idle ==> self.workers@.len() == 0
            && self.in_flight is None && self.fetch_log@.len() == 0)
        &&& (self.in_flight is Some ==> self.task_info.status == TaskStatus::Running
            && self.widx < self.workers@.len() && self.in_flight.unwrap()@.hops
            <= self.task_info.deep && self.visited.has(self.in_flight.unwrap()@.url))
        &&& (forall|k: int|
            0 <= k < self.fetch_log@.len() ==> self.visited.has(
                (#[trigger] self.fetch_log@[k]).url,
            ))
        &&& (forall|k: int|
            0 <= k < self.fetch_log@.len() ==> (#[trigger] self.fetch_log@[k]).hops
                <= self.task_info.deep)
        &&& (forall|k1: int, k2: int|
            #![trigger self.fetch_log@[k1], self.fetch_log@[k2]]
            0 <= k1 < k2 < self.fetch_log@.len() ==> self.fetch_log@[k1].url
                != self.fetch_log@[k2].url)
    }

    /// A manager with no task: empty visited set, empty frontier, an idle
    /// zeroed task record.
    pub fn new() -> (r: TaskManager)
        ensures
            r.wf(),
            r.task_info.status == TaskStatus::Idle,
            r.task_info.progress == 0,
            r.task_info.id == 0,
            r.task_info.deep == 0,
            r.task_info.name@ == Seq::<char>::empty(),
            r.task_info.created_at is None,
            r.task_info.ended_at is None,
            r.visited@ == Seq::<Seq<char>>::empty(),
            r.to_visit@ == Seq::<String>::empty(),
            r.task_dir@ == Seq::<char>::empty(),
            r.workers@ == Seq::<Worker>::empty(),
            !r.cancelled,
            r.in_flight is None,
            r.fetch_log@ == Seq::<Visit>::empty(),
    {
        let r = TaskManager {
            visited: VisitedSet::new(),
            to_visit: Vec::new(),
            task_dir: String::new(),
            workers: Vec::new(),
            widx: 0,
            cancelled: false,
            in_flight: None,
            fetch_log: Ghost(Seq::empty()),
            task_info: TaskInfo {
                id: 0,
                name: String::new(),
                deep: 0,
                progress: 0,
                created_at: None,
                ended_at: None,
                status: TaskStatus::Idle,
            },
        };
        proof {
            assert(done_count(r.workers@) == 0);
        }
        r
    }

    /// Relies on `chrono::Utc::now` and `DateTime::timestamp`: an identifier
    /// drawn from the wall clock at creation time; nothing is assumed of its
    /// value.  (`Utc::now` panics when the system clock reads before the
    /// Unix epoch — an environmental condition no precondition can
    /// exclude.)
    #[verifier::external_body]
    fn generate_task_id() -> u32 {
        chrono::Utc::now().timestamp() as u32
    }

    /// Relies on `chrono::Utc::now` and `DateTime::to_rfc3339`: the current
    /// wall-clock time rendered as text; nothing is assumed of its value.
    /// (`Utc::now` panics when the system clock reads before the Unix epoch
    /// — an environmental condition no precondition can exclude.)
    #[verifier::external_body]
    fn current_timestamp() -> String {
        chrono::Utc::now().to_rfc3339()
    }

    /// The directory that holds the task's on-disk state: one directory per
    /// task name.
    pub fn get_task_dir(&self) -> (r: String)
        ensures
            r@ == "tasks/"@ + self.task_info.name@,
    {
        let mut dir = String::from_str("tasks/");
        dir.append(self.task_info.name.as_str());
        dir
    }

    /// Set up a new task over the given seed frontier.
    ///
    /// Fails with `InvalidInput`, changing nothing, exactly when the seed
    /// list or the task name is empty.  On success the task record is fresh:
    /// a wall-clock identifier and creation timestamp, zero progress, status
    /// `Idle`, and no end timestamp.  The caller persists the record and
    /// creates the on-disk namespace.
    pub fn create_task(&mut self, start_urls: Vec<String>, task_name: String, deep: u32) -> (r:
        Result<(), CrawlError>)
        requires
            old(self).wf(),
            old(self).task_info.status == TaskStatus::Idle,
            start_urls@.len() <= u32::MAX,
        ensures
            final(self).wf(),
            r is Ok <==> start_urls@.len() > 0 && task_name@.len() > 0,
            r is Err ==> *final(self) == *old(self) && r == Err::<(), CrawlError>(
                CrawlError::InvalidInput,
            ),
            r is Ok ==> {
                &&& final(self).task_info.name == task_name
                &&& final(self).task_info.deep == deep
                &&& final(self).task_info.progress == 0
                &&& final(self).task_info.status == TaskStatus::Idle
                &&& final(self).task_info.created_at is Some
                &&& final(self).task_info.ended_at is None
                &&& final(self).to_visit == start_urls
                &&& final(self).task_dir@ == "tasks/"@ + task_name@
                &&& final(self).visited == old(self).visited
                &&& final(self).cancelled == old(self).cancelled
                &&& final(self).workers@ == old(self).workers@
                &&& final(self).in_flight is None
                &&& final(self).fetch_log@.len() == 0
            },
    {
        if start_urls.len() == 0 || task_name.as_str().is_empty() {
            return Err(CrawlError::InvalidInput);
        }
        self.task_info.id = Self::generate_task_id();
        self.task_info.name = task_name;
        self.task_info.deep = deep;
        self.task_info.progress = 0;
        self.task_info.created_at = Some(Self::current_timestamp());
        self.to_visit = start_urls;
        self.task_dir = self.get_task_dir();
        Ok(())
    }

    /// The chunk size used to partition a frontier of `len` seeds over
    /// `n` workers: the length divided by the worker count, rounded up.
    pub open spec fn chunk_size_of(len: int, n: int) -> int {
        (len + n - 1) / n
    }

    /// Begin the run: partition the frontier into contiguous chunks, one
    /// worker per non-empty chunk, and mark the task as running.
    ///
    /// Every chunk holds at least one seed; all chunks but the last hold
    /// exactly the chunk size; together, in order, they are exactly the
    /// frontier.  A worker that exhausts its chunk never takes seeds from
    /// another worker's chunk.
    pub fn start_run(&mut self, worker_count: usize)
        requires
            old(self).wf(),
            old(self).task_info.status == TaskStatus::Idle,
            old(self).to_visit@.len() >= 1,
            worker_count >= 1,
            old(self).to_visit@.len() + worker_count <= usize::MAX,
        ensures
            final(self).wf(),
            final(self).task_info.status == TaskStatus::Running,
            (final(self).task_info == TaskInfo {
                status: TaskStatus::Running,
                ..old(self).task_info
            }),
            final(self).visited == old(self).visited,
            final(self).to_visit == old(self).to_visit,
            final(self).task_dir == old(self).task_dir,
            final(self).cancelled == old(self).cancelled,
            final(self).in_flight is None,
            final(self).fetch_log == old(self).fetch_log,
            final(self).widx == 0,
            (queues_concat(final(self).workers@) == old(self).to_visit.deep_view()),
            (forall|i: int|
                0 <= i < final(self).workers@.len() ==> (#[trigger] final(self).workers@[i]).fresh()),
            (forall|i: int|
                0 <= i < final(self).workers@.len()
                    ==> 1 <= (#[trigger] final(self).workers@[i]).queue@.len()
                    <= Self::chunk_size_of(old(self).to_visit@.len() as int, worker_count as int)),
            (forall|i: int|
                0 <= i && i + 1 < final(self).workers@.len()
                    ==> (#[trigger] final(self).workers@[i]).queue@.len() == Self::chunk_size_of(
                    old(self).to_visit@.len() as int,
                    worker_count as int,
                )),
    {
        let n = self.to_visit.len();
        let cs = (n + worker_count - 1) / worker_count;
        proof {
            assert(cs >= 1) by {
                vstd::arithmetic::div_mod::lemma_div_non_zero(
                    n + worker_count - 1,
                    worker_count as int,
                );
            }
        }
        let mut workers: Vec<Worker> = Vec::new();
        let mut pos: usize = 0;
        while pos < n
            invariant
                self == old(self),
                n == self.to_visit@.len(),
                cs == Self::chunk_size_of(n as int, worker_count as int),
                cs >= 1,
                pos <= n,
                (queues_concat(workers@) == self.to_visit.deep_view().take(pos as int)),
                (forall|i: int| 0 <= i < workers@.len() ==> (#[trigger] workers@[i]).fresh()),
                (forall|i: int| 0 <= i < workers@.len() ==> (#[trigger] workers@[i]).wf()),
                (forall|i: int|
                    0 <= i < workers@.len() ==> 1 <= (#[trigger] workers@[i]).queue@.len() <= cs),
                (forall|i: int|
                    0 <= i && i + 1 < workers@.len() ==> (#[trigger] workers@[i]).queue@.len()
                        == cs),
                (workers@.len() > 0 ==> (workers@.last().queue@.len() == cs || pos == n)),
            decreases n - pos,
        {
            let end = if n - pos > cs {
                pos + cs
            } else {
                n
            };
            let mut chunk: Vec<String> = Vec::new();
            let mut j = pos;
            while j < end
                invariant
                    self == old(self),
                    pos <= j <= end <= n,
                    n == self.to_visit@.len(),
                    (chunk.deep_view() == self.to_visit.deep_view().subrange(
                        pos as int,
                        j as int,
                    )),
                decreases end - j,
            {
                let u = self.to_visit[j].clone();
                let ghost pre_chunk = chunk.deep_view();
                chunk.push(u);
                proof {
                    assert(chunk.deep_view() =~~= pre_chunk.push(u@));
                    assert(chunk.deep_view() =~~= self.to_visit.deep_view().subrange(
                        pos as int,
                        j as int + 1,
                    ));
                }
                j += 1;
            }
            let ghost pre_workers = workers@;
            let w = Worker::new(chunk);
            workers.push(w);
            proof {
                assert(workers@.drop_last() =~= pre_workers);
                assert(self.to_visit.deep_view().take(pos as int) + self.to_visit.deep_view()
                    .subrange(pos as int, end as int) =~= self.to_visit.deep_view().take(
                    end as int,
                ));
            }
            pos = end;
        }
        proof {
            assert(self.to_visit.deep_view().take(n as int) =~= self.to_visit.deep_view());
            crate::worker::lemma_done_count_fresh(workers@);
            crate::worker::lemma_queues_concat_len(workers@);
        }
        self.workers = workers;
        self.widx = 0;
        self.in_flight = None;
        self.task_info.status = TaskStatus::Running;
    }

    /// Decide the next step of the run: either one fetch to perform, or the
    /// end of the run.
    ///
    /// Work is taken depth-first from the current worker's work list and,
    /// when that is exhausted, seed by seed from its static chunk, worker by
    /// worker.  A URL is handed out only after it has been atomically
    /// claimed in the visited set — so no URL is ever handed out twice in a
    /// run — and only within the depth limit.  Once cancellation has been
    /// observed no further URL is claimed or handed out, and seeds not yet
    /// started are abandoned.  `progress` counts each seed whose subtree has
    /// been processed (or cut short), and never decreases.  `Done` means no
    /// fetch remains; unless the run was cancelled, every seed of the
    /// frontier has then been counted into `progress`.
    pub fn next_action(&mut self) -> (r: Action)
        requires
            old(self).wf(),
            old(self).task_info.status == TaskStatus::Running,
            old(self).in_flight is None,
        ensures
            final(self).wf(),
            final(self).task_info.status == TaskStatus::Running,
            final(self).task_info.id == old(self).task_info.id,
            final(self).task_info.name == old(self).task_info.name,
            final(self).task_info.deep == old(self).task_info.deep,
            final(self).task_info.created_at == old(self).task_info.created_at,
            final(self).task_info.ended_at == old(self).task_info.ended_at,
            final(self).task_info.progress >= old(self).task_info.progress,
            final(self).to_visit == old(self).to_visit,
            final(self).task_dir == old(self).task_dir,
            final(self).cancelled == old(self).cancelled,
            final(self).workers@.len() == old(self).workers@.len(),
            (forall|i: int|
                0 <= i < old(self).workers@.len() ==> (#[trigger] final(self).workers@[i]).queue
                    == old(self).workers@[i].queue),
            (old(self).cancelled ==> r is Done),
            (r matches Action::Fetch(url) ==> {
                &&& !old(self).cancelled
                &&& final(self).in_flight is Some
                &&& final(self).in_flight.unwrap().url@ == url@
                &&& final(self).in_flight.unwrap().hops <= final(self).task_info.deep
                &&& !old(self).visited.has(url@)
                &&& final(self).visited@ == old(self).visited@.push(url@)
                &&& final(self).fetch_log@ == old(self).fetch_log@.push(
                    final(self).in_flight.unwrap()@,
                )
                &&& (exists|i: int|
                    #![auto]
                    old(self).widx <= i < old(self).workers@.len() && pending_in(
                        old(self).workers@[i],
                        final(self).in_flight.unwrap()@,
                    ))
            }),
            (r is Done ==> {
                &&& final(self).in_flight is None
                &&& final(self).visited == old(self).visited
                &&& final(self).fetch_log == old(self).fetch_log
                &&& final(self).run_complete()
                &&& (!old(self).cancelled ==> final(self).task_info.progress as int == final(
                    self).total_seeds())
                &&& (!old(self).cancelled ==> forall|k: int|
                    0 <= k < old(self).to_visit@.len() ==> final(self).visited.has(
                        (#[trigger] old(self).to_visit@[k])@,
                    ))
            }),
    {
        while self.widx < self.workers.len()
            invariant
                self.wf(),
                self.task_info.status == TaskStatus::Running,
                self.in_flight is None,
                self.task_info.id == old(self).task_info.id,
                self.task_info.name == old(self).task_info.name,
                self.task_info.deep == old(self).task_info.deep,
                self.task_info.created_at == old(self).task_info.created_at,
                self.task_info.ended_at == old(self).task_info.ended_at,
                self.task_info.progress >= old(self).task_info.progress,
                self.to_visit == old(self).to_visit,
                self.task_dir == old(self).task_dir,
                self.cancelled == old(self).cancelled,
                self.visited == old(self).visited,
                self.fetch_log == old(self).fetch_log,
                self.widx >= old(self).widx,
                self.workers@.len() == old(self).workers@.len(),
                (forall|t: int|
                    0 <= t < self.workers@.len() ==> (#[trigger] self.workers@[t]).queue == old(
                        self,
                    ).workers@[t].queue),
                (forall|t: int|
                    0 <= t < self.workers@.len() ==> (#[trigger] self.workers@[t]).qidx >= old(
                        self,
                    ).workers@[t].qidx),
                (forall|t: int|
                    0 <= t < self.workers@.len() ==> (#[trigger] self.workers@[t]).stack@.len()
                        <= old(self).workers@[t].stack@.len()),
                (forall|t: int|
                    #![auto]
                    0 <= t < self.workers@.len() ==> self.workers@[t].stack@ == old(
                        self,
                    ).workers@[t].stack@.take(self.workers@[t].stack@.len() as int)),
            decreases
                self.workers@.len() - self.widx,
                3 * (self.workers@[self.widx as int].queue@.len()
                    - self.workers@[self.widx as int].qidx) + self.workers@[
                    self.widx as int
                ].stack@.len() + (if self.workers@[self.widx as int].seed_active {
                    1int
                } else {
                    0int
                }),
        {
            let i = self.widx;
            let ghost pre_ws = self.workers@;
            if self.workers[i].stack.len() > 0 {
                let ghost l = self.workers@[i as int].stack@.len() as int;
                let e = self.workers[i].stack.pop().unwrap();
                proof {
                    assert(self.workers@ =~= pre_ws.update(i as int, self.workers@[i as int]));
                    crate::worker::lemma_done_count_update(
                        pre_ws,
                        i as int,
                        self.workers@[i as int],
                    );
                    crate::worker::lemma_queues_concat_update(
                        pre_ws,
                        i as int,
                        self.workers@[i as int],
                    );
                    assert(self.workers@[i as int].stack@ =~= old(
                        self,
                    ).workers@[i as int].stack@.take(l - 1));
                }
                if !self.cancelled && e.hops <= self.task_info.deep {
                    let ghost pre_log = self.fetch_log@;
                    if self.visited.try_claim(&e.url) {
                        let url = e.url.clone();
                        proof {
                            assert forall|k: int| 0 <= k < pre_log.len() implies pre_log[k].url
                                != e.url@ by {
                                assert(old(self).visited.has(pre_log[k].url));
                            }
                            assert(e == pre_ws[i as int].stack@[l - 1]);
                            assert(pre_ws[i as int].stack@ == old(
                                self,
                            ).workers@[i as int].stack@.take(l));
                            assert(old(self).workers@[i as int].stack@[l - 1] == e);
                            assert(stack_view(old(self).workers@[i as int].stack@)[l - 1] == e@);
                            assert(pending_in(old(self).workers@[i as int], e@));
                        }
                        self.fetch_log = Ghost(self.fetch_log@.push(e@));
                        self.in_flight = Some(e);
                        return Action::Fetch(url);
                    }
                }
            } else if self.workers[i].seed_active {
                proof {
                    let w2 = Worker { seed_active: false, ..pre_ws[i as int] };
                    let up = pre_ws.update(i as int, w2);
                    crate::worker::lemma_done_count_update(pre_ws, i as int, w2);
                    crate::worker::lemma_queues_concat_update(pre_ws, i as int, w2);
                    crate::worker::lemma_queues_concat_len(up);
                    assert(forall|k: int| 0 <= k < up.len() ==> (#[trigger] up[k]).wf());
                    crate::worker::lemma_done_count_bounds(up);
                }
                self.workers[i].seed_active = false;
                proof {
                    assert(self.workers@ =~= pre_ws.update(i as int, self.workers@[i as int]));
                }
                self.task_info.progress = self.task_info.progress + 1;
            } else if self.workers[i].qidx < self.workers[i].queue.len() {
                if self.cancelled {
                    self.widx = i + 1;
                } else {
                    let qi = self.workers[i].qidx;
                    let url = self.workers[i].queue[qi].clone();
                    self.workers[i].qidx = qi + 1;
                    self.workers[i].seed_active = true;
                    proof {
                        assert(self.workers@ =~= pre_ws.update(i as int, self.workers@[i as int]));
                        crate::worker::lemma_done_count_update(
                            pre_ws,
                            i as int,
                            self.workers@[i as int],
                        );
                        crate::worker::lemma_queues_concat_update(
                            pre_ws,
                            i as int,
                            self.workers@[i as int],
                        );
                    }
                    let ghost pre_log = self.fetch_log@;
                    if self.visited.try_claim(&url) {
                        let e = Entry { url, hops: 0 };
                        let ret = e.url.clone();
                        proof {
                            assert forall|k: int| 0 <= k < pre_log.len() implies pre_log[k].url
                                != e.url@ by {
                                assert(old(self).visited.has(pre_log[k].url));
                            }
                            assert(old(self).workers@[i as int].queue@[qi as int]@ == e.url@);
                            assert(pending_in(old(self).workers@[i as int], e@));
                        }
                        self.fetch_log = Ghost(self.fetch_log@.push(e@));
                        self.in_flight = Some(e);
                        return Action::Fetch(ret);
                    }
                    // The seed was already visited: its subtree is a no-op,
                    // and the seed is counted at the next step, when the
                    // (empty) work list is seen.
                }
            } else {
                self.widx = i + 1;
            }
        }
        proof {
            if !self.cancelled {
                assert(forall|i: int|
                    0 <= i < self.workers@.len() ==> (#[trigger] self.workers@[i]).fully_done());
                crate::worker::lemma_done_count_complete(self.workers@);
                crate::worker::lemma_queues_concat_len(self.workers@);
                assert forall|k: int| 0 <= k < old(self).to_visit@.len() implies self.visited.has(
                    old(self).to_visit@[k]@,
                ) by {
                    assert(queues_concat(self.workers@) == self.to_visit.deep_view());
                    crate::worker::lemma_queues_concat_index(self.workers@, k);
                    let (wi, wj) = choose|wi: int, wj: int|
                        #![auto]
                        0 <= wi < self.workers@.len() && 0 <= wj
                            < self.workers@[wi].queue@.len() && queues_concat(self.workers@)[k]
                            == self.workers@[wi].queue@[wj]@;
                    assert(self.workers@[wi].qidx == self.workers@[wi].queue.len());
                    assert(self.visited.has(self.workers@[wi].queue@[wj]@));
                    assert(self.to_visit.deep_view()[k] == self.to_visit@[k]@);
                }
            }
        }
        Action::Done
    }

    /// Report that the in-flight fetch succeeded, handing over the page
    /// body.
    ///
    /// The body is parsed; each discovered link is resolved against the
    /// page's URL (a link that does not resolve is skipped, its siblings are
    /// unaffected) and, when the page lies strictly within the depth limit
    /// and the link is not yet visited, queued on the worker's work list —
    /// the first link on top, so the crawl stays depth-first.  Links of a
    /// page at the depth limit are not followed.  Returns what the page
    /// yielded, for recording.
    pub fn on_fetch_success(&mut self, body: &str) -> (r: PageSummary)
        requires
            old(self).wf(),
            old(self).in_flight is Some,
        ensures
            final(self).wf(),
            final(self).in_flight is None,
            final(self).visited == old(self).visited,
            final(self).fetch_log == old(self).fetch_log,
            final(self).task_info == old(self).task_info,
            final(self).to_visit == old(self).to_visit,
            final(self).task_dir == old(self).task_dir,
            final(self).cancelled == old(self).cancelled,
            final(self).widx == old(self).widx,
            final(self).workers@.len() == old(self).workers@.len(),
            (forall|j: int|
                0 <= j < old(self).workers@.len() && j != old(self).widx ==> final(self).workers@[j]
                    == old(self).workers@[j]),
            ({
                let e = old(self).in_flight.unwrap()@;
                let w0 = old(self).workers@[old(self).widx as int];
                let w1 = final(self).workers@[old(self).widx as int];
                let kids = if e.hops < old(self).task_info.deep {
                    pushed_children(
                        e.url,
                        hrefs_of(body@),
                        old(self).visited@,
                        (e.hops + 1) as u32,
                    )
                } else {
                    Seq::empty()
                };
                &&& w1.queue == w0.queue
                &&& w1.qidx == w0.qidx
                &&& w1.seed_active == w0.seed_active
                &&& stack_view(w1.stack@) == stack_view(w0.stack@) + kids
            }),
            r.is_content_page == (readable_of(body@, old(self).in_flight.unwrap().url@) is Some),
            r.links_found == hrefs_of(body@).len(),
            r.title is Some,
            r.text is Some,
            (match readable_of(body@, old(self).in_flight.unwrap().url@) {
                Some(tt) => r.title.unwrap()@ == tt.0 && r.text.unwrap()@ == tt.1,
                None => r.title.unwrap()@ == Seq::<char>::empty() && r.text.unwrap()@
                    == Seq::<char>::empty(),
            }),
    {
        let e = self.in_flight.take().unwrap();
        let parser = Parser::new();
        let parsed = parser.parse_content(body, e.url.as_str());
        let (links, is_content_page, title, text) = parsed.unwrap();
        let links_found = links.len();
        let ghost all_links = links.deep_view();
        if e.hops < self.task_info.deep {
            let hops2 = e.hops + 1;
            let ghost snap = *self;
            let ghost base = e.url@;
            let ghost vis = self.visited@;
            let mut kids_vec: Vec<Entry> = Vec::new();
            let mut k = links.len();
            proof {
                assert(all_links.skip(k as int) =~= Seq::<Seq<char>>::empty());
                assert(stack_view(kids_vec@) =~= pushed_children(
                    base,
                    all_links.skip(k as int),
                    vis,
                    hops2,
                ));
            }
            while k > 0
                invariant
                    *self == snap,
                    k <= links@.len(),
                    all_links == links.deep_view(),
                    base == e.url@,
                    vis == self.visited@,
                    self.visited.wf(),
                    (stack_view(kids_vec@) == pushed_children(
                        base,
                        all_links.skip(k as int),
                        vis,
                        hops2,
                    )),
                decreases k,
            {
                k -= 1;
                let ghost pre_kids = kids_vec@;
                proof {
                    assert(all_links.skip(k as int).skip(1) =~= all_links.skip(k as int + 1));
                    assert(links@[k as int]@ == all_links[k as int]);
                }
                match crate::links::resolve_link(e.url.as_str(), links[k].as_str()) {
                    Some(u) => {
                        if !self.visited.contains(&u) {
                            kids_vec.push(Entry { url: u, hops: hops2 });
                        }
                    },
                    None => {},
                }
                proof {
                    assert(stack_view(kids_vec@) =~= pushed_children(
                        base,
                        all_links.skip(k as int),
                        vis,
                        hops2,
                    ));
                }
            }
            proof {
                assert(all_links.skip(0) =~= all_links);
            }
            let i = self.widx;
            let ghost pre_ws = self.workers@;
            let ghost pre_stack = self.workers@[i as int].stack@;
            let ghost kids_entries = kids_vec@;
            self.workers[i].stack.append(&mut kids_vec);
            proof {
                assert(self.workers@ =~= pre_ws.update(i as int, self.workers@[i as int]));
                crate::worker::lemma_done_count_update(pre_ws, i as int, self.workers@[i as int]);
                crate::worker::lemma_queues_concat_update(
                    pre_ws,
                    i as int,
                    self.workers@[i as int],
                );
                assert(self.workers@[i as int].stack@ == pre_stack + kids_entries);
                assert(stack_view(pre_stack + kids_entries) =~= stack_view(pre_stack) + stack_view(
                    kids_entries,
                ));
            }
        } else {
            proof {
                let w0 = self.workers@[self.widx as int];
                assert(stack_view(w0.stack@) + Seq::<Visit>::empty() =~= stack_view(w0.stack@));
            }
        }
        PageSummary { is_content_page, title, text, links_found }
    }

    /// Report that the in-flight fetch failed.  The error is the caller's to
    /// record; the URL stays claimed, the page's subtree is abandoned, and
    /// the run continues.
    pub fn on_fetch_failure(&mut self)
        requires
            old(self).wf(),
            old(self).in_flight is Some,
        ensures
            final(self).wf(),
            (*final(self) == TaskManager { in_flight: None, ..*old(self) }),
    {
        self.in_flight = None;
    }

    /// End the run: give the task its terminal status and stamp the end
    /// timestamp, exactly once.
    ///
    /// The task is `Finished` exactly when every seed of the frontier was
    /// counted into `progress`; a run cut short by cancellation is
    /// `Stopped`.
    pub fn finish(&mut self)
        requires
            old(self).wf(),
            old(self).task_info.status == TaskStatus::Running,
            old(self).in_flight is None,
        ensures
            final(self).wf(),
            final(self).task_info.status.is_terminal(),
            old(self).task_info.ended_at is None,
            final(self).task_info.ended_at is Some,
            (final(self).task_info.status == (if old(self).task_info.progress as int == old(
                self,
            ).total_seeds() {
                TaskStatus::Finished
            } else {
                TaskStatus::Stopped
            })),
            final(self).task_info.progress == old(self).task_info.progress,
            final(self).task_info.id == old(self).task_info.id,
            final(self).task_info.name == old(self).task_info.name,
            final(self).task_info.deep == old(self).task_info.deep,
            final(self).task_info.created_at == old(self).task_info.created_at,
            final(self).visited == old(self).visited,
            final(self).fetch_log == old(self).fetch_log,
            final(self).to_visit == old(self).to_visit,
            final(self).task_dir == old(self).task_dir,
            final(self).cancelled == old(self).cancelled,
            final(self).workers == old(self).workers,
            final(self).widx == old(self).widx,
            final(self).in_flight is None,
    {
        if self.task_info.progress as usize == self.to_visit.len() {
            self.task_info.status = TaskStatus::Finished;
        } else {
            self.task_info.status = TaskStatus::Stopped;
        }
        self.task_info.ended_at = Some(Self::current_timestamp());
    }

    /// Derive the two standard child links of a URL: the URL with a fixed
    /// pair of path suffixes.
    pub fn fetch(&self, url: &str) -> (r: Vec<String>)
        ensures
            r.deep_view().len() == 2,
            r.deep_view()[0] == url@ + "/link1"@,
            r.deep_view()[1] == url@ + "/link2"@,
    {
        let mut first = String::from_str(url);
        first.append("/link1");
        let mut second = String::from_str(url);
        second.append("/link2");
        let mut r: Vec<String> = Vec::new();
        r.push(first);
        r.push(second);
        proof {
            assert(r.deep_view()[0] == url@ + "/link1"@);
            assert(r.deep_view()[1] == url@ + "/link2"@);
        }
        r
    }

    /// Encode the visited set for durable storage: every visited URL, one
    /// per line, in insertion order.  The caller writes the text to the
    /// state file.
    pub fn save_state(&self) -> (r: String)
        ensures
            r@ == encode_lines(self.visited@),
    {
        let urls = self.visited.urls();
        let mut out = String::new();
        let mut i: usize = 0;
        proof {
            reveal_strlit("\n");
            assert("\n"@ =~= seq!['\n']);
            assert(self.visited@.take(0) =~= Seq::<Seq<char>>::empty());
        }
        while i < urls.len()
            invariant
                i <= urls.len(),
                urls.deep_view() == self.visited@,
                out@ == encode_lines(self.visited@.take(i as int)),
                "\n"@ == seq!['\n'],
            decreases urls.len() - i,
        {
            out.append(urls[i].as_str());
            out.append("\n");
            proof {
                assert(urls.deep_view()[i as int] == urls@[i as int]@);
                crate::persist::lemma_encode_push(
                    self.visited@.take(i as int),
                    self.visited@[i as int],
                );
                assert(self.visited@.take(i as int).push(self.visited@[i as int])
                    =~= self.visited@.take(i as int + 1));
            }
            i += 1;
        }
        proof {
            assert(self.visited@.take(self.visited@.len() as int) =~= self.visited@);
        }
        out
    }

    /// Reload a visited list that `save_state` wrote: every line of the
    /// text joins the visited set.  The caller reads the text from the
    /// state file.
    pub fn load_state(&mut self, content: &str)
        requires
            old(self).wf(),
        ensures
            final(self).wf(),
            (final(self).visited.to_set() == old(self).visited.to_set() + split_lines(
                content@,
            ).to_set()),
            final(self).task_info == old(self).task_info,
            final(self).to_visit == old(self).to_visit,
            final(self).task_dir == old(self).task_dir,
            final(self).workers == old(self).workers,
            final(self).widx == old(self).widx,
            final(self).cancelled == old(self).cancelled,
            final(self).in_flight == old(self).in_flight,
            final(self).fetch_log == old(self).fetch_log,
    {
        let n = content.unicode_len();
        let mut ls: usize = 0;
        let mut i: usize = 0;
        proof {
            assert(content@.take(0) =~= Seq::<char>::empty());
            assert(self.visited.to_set() =~= old(self).visited.to_set() + split_lines(
                content@.take(0),
            ).to_set());
        }
        while i < n
            invariant
                old(self).wf(),
                self.wf(),
                ls <= i <= n,
                n == content@.len(),
                ls == 0 || content@[ls - 1] == '\n',
                (forall|j: int| ls <= j < i ==> content@[j] != '\n'),
                (self.visited.to_set() == old(self).visited.to_set() + split_lines(
                    content@.take(ls as int),
                ).to_set()),
                (forall|u: Seq<char>| old(self).visited.has(u) ==> self.visited.has(u)),
                self.task_info == old(self).task_info,
                self.to_visit == old(self).to_visit,
                self.task_dir == old(self).task_dir,
                self.workers == old(self).workers,
                self.widx == old(self).widx,
                self.cancelled == old(self).cancelled,
                self.in_flight == old(self).in_flight,
                self.fetch_log == old(self).fetch_log,
            decreases n - i,
        {
            if content.get_char(i) == '\n' {
                let line = content.substring_char(ls, i);
                let line_s = String::from_str(line);
                let ghost a = content@.take(ls as int);
                let ghost ln = content@.subrange(ls as int, i as int);
                proof {
                    assert(a.len() == 0 || a.last() == '\n');
                    assert(!ln.contains('\n')) by {
                        if ln.contains('\n') {
                            let j = choose|j: int| 0 <= j < ln.len() && ln[j] == '\n';
                            assert(content@[ls + j] == '\n');
                        }
                    }
                    crate::persist::lemma_split_append_line(a, ln);
                    assert(a + ln + seq!['\n'] =~= content@.take(i as int + 1));
                    crate::persist::lemma_push_to_set(split_lines(a), ln);
                }
                self.visited.insert(line_s);
                proof {
                    assert(self.visited.to_set() =~= old(self).visited.to_set() + split_lines(
                        content@.take(i as int + 1),
                    ).to_set());
                }
                ls = i + 1;
            }
            i += 1;
        }
        if ls < n {
            let line = content.substring_char(ls, n);
            let line_s = String::from_str(line);
            let ghost a = content@.take(ls as int);
            let ghost ln = content@.subrange(ls as int, n as int);
            proof {
                assert(a.len() == 0 || a.last() == '\n');
                assert(!ln.contains('\n')) by {
                    if ln.contains('\n') {
                        let j = choose|j: int| 0 <= j < ln.len() && ln[j] == '\n';
                        assert(content@[ls + j] == '\n');
                    }
                }
                crate::persist::lemma_split_append_last(a, ln);
                assert(a + ln =~= content@);
                crate::persist::lemma_push_to_set(split_lines(a), ln);
            }
            self.visited.insert(line_s);
            proof {
                assert(self.visited.to_set() =~= old(self).visited.to_set() + split_lines(
                    content@,
                ).to_set());
            }
        } else {
            proof {
                assert(content@.take(ls as int) =~= content@);
            }
        }
    }

    /// Record that the process-wide cancellation signal has been observed.
    /// The flag is never reset during the process's lifetime.
    pub fn observe_cancellation(&mut self)
        requires
            old(self).wf(),
        ensures
            final(self).wf(),
            final(self).cancelled,
            *final(self) == (TaskManager { cancelled: true, ..*old(self) }),
    {
        self.cancelled = true;
    }

    /// Whether the engine has no further fetch to hand out.
    pub fn is_complete(&self) -> (r: bool)
        ensures
            (r == self.run_complete()),
    {
        self.widx == self.workers.len()
    }
}


/// Dedup invariant: over a whole run, every URL is handed out for fetching
/// at most once, however often it is discovered as a link or listed as a
/// seed.
pub proof fn lemma_fetch_dedup(m: TaskManager)
    requires
        m.wf(),
    ensures
        forall|k1: int, k2: int|
            #![trigger m.fetch_log@[k1], m.fetch_log@[k2]]
            0 <= k1 < k2 < m.fetch_log@.len() ==> m.fetch_log@[k1].url != m.fetch_log@[k2].url,
{
}

/// Depth invariant: no URL discovered farther than the depth limit from its
/// seed is ever handed out for fetching.
pub proof fn lemma_fetch_depth_bound(m: TaskManager)
    requires
        m.wf(),
    ensures
        forall|k: int|
            0 <= k < m.fetch_log@.len() ==> (#[trigger] m.fetch_log@[k]).hops
                <= m.task_info.deep,
{
}

} // verus!
