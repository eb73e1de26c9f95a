//! The per-source supervisor: which page to fetch next, under a bound on
//! concurrent fetches, the rate limiter and a retry policy.
//!
//! The supervisor is a state machine. Its caller spawns the fetch of each
//! task that `next_worker` hands out, reports every finished fetch through
//! `complete`, persists the pages it is told to persist, and stops when
//! `is_done` holds; `status` then says whether the sweep finished or must be
//! resumed later.
use vstd::prelude::*;

use crate::clock::{clamp_i64, instant_after};
use crate::limiter::RateLimiter;
use crate::{AggregateStatus, SourceError};

verus! {

/// Most fetches a supervisor keeps in flight.
pub const MAX_CONCURRENT_FETCHES: usize = 10;

/// Most times a failed page is fetched again.
pub const MAX_RETRIES: usize = 3;

/// Identifier of one page fetch, unique within a supervisor.
#[derive(Debug, Default, Clone, Copy, PartialEq, Eq, Hash, PartialOrd, Ord, Structural)]
pub struct WorkerId(pub usize);

impl WorkerId {
    /// Moves to the following identifier.
    pub fn next(&mut self)
        requires
            old(self).0 < usize::MAX,
        ensures
            final(self).0 == old(self).0 + 1,
    {
        self.0 = self.0 + 1;
    }
}

/// One fetch to perform: `page`, after `retries` failed attempts.
#[derive(Debug, Clone, Copy, PartialEq, Eq, Structural)]
pub struct WorkerTask {
    pub worker_id: WorkerId,
    pub page: usize,
    pub retries: usize,
}

/// What the caller does with a finished fetch.
#[derive(Debug, Clone, Copy, PartialEq, Eq, Structural)]
pub enum Completion {
    /// The page was fetched: persist its entries.
    Persist { page: usize },
    /// The fetch failed; the page waits in the retry queue with this count.
    Retry { page: usize, retries: usize },
    /// The fetch failed for the last allowed time; the page is given up.
    Abandon { page: usize },
    /// No fetch with this identifier is in flight; nothing changed.
    Unknown,
}

/// The number of fetches of `page` recorded in `fetches` (absent: none).
pub open spec fn count_of(fetches: Map<usize, nat>, page: usize) -> nat {
    if fetches.contains_key(page) {
        fetches[page]
    } else {
        0
    }
}

/// The state of a supervisor, as its contracts see it.
pub struct SupervisorState {
    /// Identifier the next fetch will get.
    pub next_worker_id: usize,
    /// Most fetches in flight at once.
    pub task_bound: usize,
    pub max_retries: usize,
    /// First page not yet dispatched.
    pub current_page: usize,
    /// Page count last published by the source.
    pub total_pages: usize,
    /// Fetches spawned and not yet reported, oldest first.
    pub in_flight: Seq<WorkerTask>,
    /// Failed pages waiting for another attempt, with their failure count.
    pub retry_queue: Seq<(usize, usize)>,
    /// Set once the limiter refused a token: when to resume.
    pub pending: Option<i64>,
    /// How many times each page was fetched in this sweep.
    pub fetches: Map<usize, nat>,
}

impl SupervisorState {
    pub open spec fn fetch_count(self, page: usize) -> nat {
        count_of(self.fetches, page)
    }

    pub open spec fn is_finished(self, page: usize) -> bool {
        page > self.total_pages
    }

    /// The page (and its failure count) that would be fetched next, if a
    /// token is granted. Retries go first; nothing is spawned once the limiter
    /// refused, or while the pool is full.
    pub open spec fn candidate(self) -> Option<(usize, usize)> {
        if self.pending is Some || self.in_flight.len() >= self.task_bound
            || self.next_worker_id == usize::MAX {
            None
        } else if self.retry_queue.len() > 0 {
            Some(self.retry_queue[0])
        } else if self.is_finished(self.current_page) || self.current_page == usize::MAX {
            None
        } else {
            Some((self.current_page, 0usize))
        }
    }

    pub open spec fn is_done(self) -> bool {
        self.in_flight.len() == 0 && self.candidate() is None
    }

    pub open spec fn status(self) -> AggregateStatus {
        match self.pending {
            Some(t) => AggregateStatus::PendingUntil(t),
            None => AggregateStatus::Finished,
        }
    }

    /// The index of the in-flight fetch `id`, if any.
    pub open spec fn holds_worker(self, id: WorkerId, i: int) -> bool {
        0 <= i < self.in_flight.len() && self.in_flight[i].worker_id == id
    }

    /// The state and the task after the limiter answered `permit` at `now`.
    pub open spec fn spawn_spec(self, permit: Result<(), u128>, now: i64) -> (SupervisorState, Option<
        WorkerTask,
    >) {
        match self.candidate() {
            None => (self, None),
            Some((page, retries)) => match permit {
                Err(wait) => (SupervisorState { pending: Some(clamp_i64(now + wait)), ..self }, None),
                Ok(_) => {
                    let task = WorkerTask { worker_id: WorkerId(self.next_worker_id), page, retries };
                    (
                        SupervisorState {
                            next_worker_id: (self.next_worker_id + 1) as usize,
                            current_page: if retries == 0 {
                                (self.current_page + 1) as usize
                            } else {
                                self.current_page
                            },
                            retry_queue: if retries == 0 {
                                self.retry_queue
                            } else {
                                self.retry_queue.drop_first()
                            },
                            in_flight: self.in_flight.push(task),
                            fetches: self.fetches.insert(page, (retries + 1) as nat),
                            ..self
                        },
                        Some(task),
                    )
                },
            },
        }
    }

    /// The state and the instruction after fetch `id` ended with `fetched`.
    pub open spec fn complete_spec(self, id: WorkerId, fetched: Result<usize, SourceError>) -> (
        SupervisorState,
        Completion,
    ) {
        if exists|i: int| self.holds_worker(id, i) {
            let i = choose|i: int| self.holds_worker(id, i);
            let t = self.in_flight[i];
            let base = SupervisorState { in_flight: self.in_flight.remove(i), ..self };
            match fetched {
                Ok(total_pages) => (SupervisorState { total_pages, ..base }, Completion::Persist { page: t.page }),
                Err(_) => if t.retries < self.max_retries {
                    let retries = (t.retries + 1) as usize;
                    (
                        SupervisorState { retry_queue: self.retry_queue.push((t.page, retries)), ..base },
                        Completion::Retry { page: t.page, retries },
                    )
                } else {
                    (base, Completion::Abandon { page: t.page })
                },
            }
        } else {
            (self, Completion::Unknown)
        }
    }

    pub open spec fn wf(self) -> bool {
        &&& 1 <= self.task_bound <= MAX_CONCURRENT_FETCHES
        &&& self.max_retries == MAX_RETRIES
        &&& 2 <= self.current_page
        &&& self.in_flight.len() <= self.task_bound
        &&& forall|i: int|
            0 <= i < self.in_flight.len() ==> {
                let t = #[trigger] self.in_flight[i];
                &&& 2 <= t.page < self.current_page
                &&& t.retries <= self.max_retries
                &&& t.worker_id.0 < self.next_worker_id
                &&& self.fetch_count(t.page) == t.retries + 1
            }
        &&& forall|i: int|
            0 <= i < self.retry_queue.len() ==> {
                let e = #[trigger] self.retry_queue[i];
                &&& 2 <= e.0 < self.current_page
                &&& 1 <= e.1 <= self.max_retries
                &&& self.fetch_count(e.0) == e.1
            }
        &&& forall|i: int, j: int|
            0 <= i < self.in_flight.len() && 0 <= j < self.in_flight.len() && i != j
                ==> #[trigger] self.in_flight[i].worker_id != #[trigger] self.in_flight[j].worker_id
                && self.in_flight[i].page != self.in_flight[j].page
        &&& forall|i: int, j: int|
            0 <= i < self.retry_queue.len() && 0 <= j < self.retry_queue.len() && i != j
                ==> #[trigger] self.retry_queue[i].0 != #[trigger] self.retry_queue[j].0
        &&& forall|i: int, j: int|
            0 <= i < self.in_flight.len() && 0 <= j < self.retry_queue.len()
                ==> #[trigger] self.in_flight[i].page != #[trigger] self.retry_queue[j].0
        &&& forall|p: usize| #[trigger] count_of(self.fetches, p) <= self.max_retries + 1
        &&& forall|p: usize| p >= self.current_page ==> #[trigger] count_of(self.fetches, p) == 0
        &&& forall|p: usize| p < 2 ==> #[trigger] count_of(self.fetches, p) == 0
    }
}

/// Drains pages `2..` of one source (page 1 is fetched by the aggregator to
/// learn the page count).
pub struct AggregatorSupervisor {
    worker_id: WorkerId,
    task_bound: usize,
    max_retries: usize,
    current_page: usize,
    total_pages: usize,
    workers: Vec<WorkerTask>,
    retry_queue: Vec<(usize, usize)>,
    pending: Option<i64>,
    fetches: Ghost<Map<usize, nat>>,
}

impl View for AggregatorSupervisor {
    type V = SupervisorState;

    closed spec fn view(&self) -> SupervisorState {
        SupervisorState {
            next_worker_id: self.worker_id.0,
            task_bound: self.task_bound,
            max_retries: self.max_retries,
            current_page: self.current_page,
            total_pages: self.total_pages,
            in_flight: self.workers@,
            retry_queue: self.retry_queue@,
            pending: self.pending,
            fetches: self.fetches@,
        }
    }
}

impl AggregatorSupervisor {
    /// The state of a new supervisor for a sweep of `total_pages` pages.
    pub open spec fn new_spec(total_pages: usize) -> SupervisorState {
        SupervisorState {
            next_worker_id: 0,
            task_bound: if total_pages - 1 < MAX_CONCURRENT_FETCHES {
                (total_pages - 1) as usize
            } else {
                MAX_CONCURRENT_FETCHES
            },
            max_retries: MAX_RETRIES,
            current_page: 2,
            total_pages,
            in_flight: Seq::empty(),
            retry_queue: Seq::empty(),
            pending: None,
            fetches: Map::empty(),
        }
    }

    /// A supervisor for a sweep whose first page announced `total_pages`.
    pub fn new(total_pages: usize) -> (r: AggregatorSupervisor)
        requires
            total_pages >= 2,
        ensures
            r@ == Self::new_spec(total_pages),
            r@.wf(),
    {
        let remaining_pages = total_pages - 1;
        let task_bound = if remaining_pages < MAX_CONCURRENT_FETCHES {
            remaining_pages
        } else {
            MAX_CONCURRENT_FETCHES
        };
        AggregatorSupervisor {
            worker_id: WorkerId(0),
            task_bound,
            max_retries: MAX_RETRIES,
            current_page: 2,
            total_pages,
            workers: Vec::new(),
            retry_queue: Vec::new(),
            pending: None,
            fetches: Ghost(Map::empty()),
        }
    }

    /// Whether `page` lies past the last page the source published.
    pub fn is_finished(&self, page: usize) -> (r: bool)
        ensures
            r == self@.is_finished(page),
    {
        page > self.total_pages
    }

    /// The page (and failure count) that would be fetched next.
    pub fn next_candidate(&self) -> (r: Option<(usize, usize)>)
        ensures
            r == self@.candidate(),
    {
        if self.pending.is_some() || self.workers.len() >= self.task_bound
            || self.worker_id.0 == usize::MAX {
            None
        } else if self.retry_queue.len() > 0 {
            Some(self.retry_queue[0])
        } else if self.is_finished(self.current_page) || self.current_page == usize::MAX {
            None
        } else {
            Some((self.current_page, 0))
        }
    }

    /// Dispatches the next candidate if the limiter's answer `permit` grants
    /// a token. A refusal defers the sweep to `now` plus the reported wait:
    /// no further fetch is handed out, and the ones in flight are drained.
    pub fn spawn_worker(&mut self, permit: Result<(), u128>, now: i64) -> (r: Option<WorkerTask>)
        requires
            old(self)@.wf(),
        ensures
            final(self)@.wf(),
            final(self)@.task_bound == old(self)@.task_bound,
            final(self)@.total_pages == old(self)@.total_pages,
            (final(self)@, r) == old(self)@.spawn_spec(permit, now),
    {
        let candidate = self.next_candidate();
        match candidate {
            None => None,
            Some((page, retries)) => match permit {
                Err(wait) => {
                    self.pending = Some(instant_after(now, wait));
                    None
                },
                Ok(()) => {
                    let ghost old_state = self@;
                    if retries == 0 {
                        self.current_page = self.current_page + 1;
                    } else {
                        self.retry_queue.remove(0);
                    }
                    let task = WorkerTask { worker_id: self.worker_id, page, retries };
                    self.worker_id.next();
                    self.workers.push(task);
                    self.fetches = Ghost(self.fetches@.insert(page, (retries + 1) as nat));
                    proof {
                        let s = self@;
                        assert(old_state.fetch_count(page) == retries);
                        assert forall|p: usize| #[trigger] count_of(s.fetches, p) <= s.max_retries + 1 by {
                            if p != page {
                                assert(count_of(s.fetches, p) == count_of(old_state.fetches, p));
                            }
                        }
                        assert forall|p: usize| p < 2 implies #[trigger] count_of(s.fetches, p) == 0 by {
                            assert(p != page);
                            assert(count_of(s.fetches, p) == count_of(old_state.fetches, p));
                        }
                        assert forall|p: usize| p >= s.current_page implies #[trigger] count_of(
                            s.fetches,
                            p,
                        ) == 0 by {
                            if p != page {
                                assert(count_of(s.fetches, p) == count_of(old_state.fetches, p));
                            }
                        }
                        assert forall|i: int| 0 <= i < s.in_flight.len() implies {
                            let t = #[trigger] s.in_flight[i];
                            &&& 2 <= t.page < s.current_page
                            &&& t.retries <= s.max_retries
                            &&& t.worker_id.0 < s.next_worker_id
                            &&& s.fetch_count(t.page) == t.retries + 1
                        } by {
                            if i < old_state.in_flight.len() {
                                let t = old_state.in_flight[i];
                                if retries > 0 {
                                    assert(old_state.retry_queue[0].0 == page);
                                    assert(t.page != page);
                                }
                            }
                        }
                        assert forall|i: int| 0 <= i < s.retry_queue.len() implies {
                            let e = #[trigger] s.retry_queue[i];
                            &&& 2 <= e.0 < s.current_page
                            &&& 1 <= e.1 <= s.max_retries
                            &&& s.fetch_count(e.0) == e.1
                        } by {
                            if retries > 0 {
                                assert(s.retry_queue[i] == old_state.retry_queue[i + 1]);
                            } else {
                                assert(s.retry_queue[i] == old_state.retry_queue[i]);
                            }
                        }
                        assert forall|i: int, j: int|
                            0 <= i < s.in_flight.len() && 0 <= j < s.retry_queue.len()
                                implies #[trigger] s.in_flight[i].page != #[trigger] s.retry_queue[j].0 by {
                            if retries > 0 {
                                assert(s.retry_queue[j] == old_state.retry_queue[j + 1]);
                            }
                        }
                        assert forall|i: int, j: int|
                            0 <= i < s.retry_queue.len() && 0 <= j < s.retry_queue.len() && i != j
                                implies #[trigger] s.retry_queue[i].0 != #[trigger] s.retry_queue[j].0 by {
                            if retries > 0 {
                                assert(s.retry_queue[i] == old_state.retry_queue[i + 1]);
                                assert(s.retry_queue[j] == old_state.retry_queue[j + 1]);
                            }
                        }
                    }
                    Some(task)
                },
            },
        }
    }

    /// Asks the limiter for a token and dispatches the next candidate if one
    /// is granted. The limiter is consulted only when there is a candidate.
    pub fn next_worker(&mut self, limiter: &mut RateLimiter, now: i64) -> (r: Option<WorkerTask>)
        requires
            old(self)@.wf(),
        ensures
            final(self)@.wf(),
            final(self)@.task_bound == old(self)@.task_bound,
            final(self)@.total_pages == old(self)@.total_pages,
            old(self)@.candidate() is None ==> r is None && final(self)@ == old(self)@
                && final(limiter)@ == old(limiter)@,
            exists|permit: Result<(), u128>|
                (final(self)@, r) == #[trigger] old(self)@.spawn_spec(permit, now) && (old(
                    self,
                )@.candidate() is Some ==> (permit is Ok <==> final(limiter)@ == old(limiter)@ + 1)),
            r is Some <==> final(limiter)@ == old(limiter)@ + 1,
            r is None ==> final(limiter)@ == old(limiter)@,
    {
        if self.next_candidate().is_none() {
            assert((self@, None::<WorkerTask>) == self@.spawn_spec(Ok(()), now));
            return None;
        }
        let permit = limiter.try_acquire();
        self.spawn_worker(permit, now)
    }

    /// Reports that fetch `worker_id` ended: with the page count the source
    /// published (`Ok`), or with an error. A failed page is queued for another
    /// attempt until it has failed `max_retries + 1` times, then given up.
    pub fn complete(&mut self, worker_id: WorkerId, fetched: Result<usize, SourceError>) -> (r:
        Completion)
        requires
            old(self)@.wf(),
        ensures
            final(self)@.wf(),
            final(self)@.task_bound == old(self)@.task_bound,
            (final(self)@, r) == old(self)@.complete_spec(worker_id, fetched),
    {
        let mut i: usize = 0;
        while i < self.workers.len()
            invariant
                i <= self.workers.len(),
                forall|j: int| 0 <= j < i ==> self.workers@[j].worker_id != worker_id,
            ensures
                i <= self.workers.len(),
                forall|j: int| 0 <= j < i ==> self.workers@[j].worker_id != worker_id,
                i < self.workers.len() ==> self.workers@[i as int].worker_id == worker_id,
            decreases self.workers.len() - i,
        {
            if self.workers[i].worker_id == worker_id {
                break;
            }
            i = i + 1;
        }
        if i == self.workers.len() {
            return Completion::Unknown;
        }
        let ghost old_state = self@;
        proof {
            assert(old_state.holds_worker(worker_id, i as int));
            assert forall|k: int| old_state.holds_worker(worker_id, k) implies k == i by {
                if k != i {
                    assert(old_state.in_flight[k].worker_id != old_state.in_flight[i as int].worker_id);
                }
            }
        }
        let task = self.workers.remove(i);
        proof {
            let s = self@;
            assert forall|a: int| 0 <= a < s.in_flight.len() implies s.in_flight[a] == old_state.in_flight[
                if a < i { a } else { a + 1 }
            ] by {}
        }
        match fetched {
            Ok(total_pages) => {
                self.total_pages = total_pages;
                proof {
                    let s = self@;
                    assert forall|a: int, b: int|
                        0 <= a < s.in_flight.len() && 0 <= b < s.in_flight.len() && a != b
                            implies #[trigger] s.in_flight[a].worker_id != #[trigger] s.in_flight[b].worker_id
                            && s.in_flight[a].page != s.in_flight[b].page by {
                        let a2 = if a < i { a } else { a + 1 };
                        let b2 = if b < i { b } else { b + 1 };
                        assert(s.in_flight[a] == old_state.in_flight[a2]);
                        assert(s.in_flight[b] == old_state.in_flight[b2]);
                    }
                    assert forall|a: int, j: int|
                        0 <= a < s.in_flight.len() && 0 <= j < s.retry_queue.len()
                            implies #[trigger] s.in_flight[a].page != #[trigger] s.retry_queue[j].0 by {
                        let a2 = if a < i { a } else { a + 1 };
                        assert(s.in_flight[a] == old_state.in_flight[a2]);
                    }
                    assert forall|a: int| 0 <= a < s.in_flight.len() implies {
                        let t = #[trigger] s.in_flight[a];
                        &&& t.page < s.current_page
                        &&& t.retries <= s.max_retries
                        &&& t.worker_id.0 < s.next_worker_id
                        &&& s.fetch_count(t.page) == t.retries + 1
                    } by {
                        let a2 = if a < i { a } else { a + 1 };
                        assert(s.in_flight[a] == old_state.in_flight[a2]);
                    }
                }
                Completion::Persist { page: task.page }
            },
            Err(_) => {
                if task.retries < self.max_retries {
                    let retries = task.retries + 1;
                    self.retry_queue.push((task.page, retries));
                    proof {
                        let s = self@;
                        assert forall|a: int, b: int|
                            0 <= a < s.in_flight.len() && 0 <= b < s.in_flight.len() && a != b
                                implies #[trigger] s.in_flight[a].worker_id
                                != #[trigger] s.in_flight[b].worker_id && s.in_flight[a].page
                                != s.in_flight[b].page by {
                            let a2 = if a < i { a } else { a + 1 };
                            let b2 = if b < i { b } else { b + 1 };
                            assert(s.in_flight[a] == old_state.in_flight[a2]);
                            assert(s.in_flight[b] == old_state.in_flight[b2]);
                        }
                        assert forall|a: int, j: int|
                            0 <= a < s.in_flight.len() && 0 <= j < s.retry_queue.len()
                                implies #[trigger] s.in_flight[a].page != #[trigger] s.retry_queue[j].0 by {
                            let a2 = if a < i { a } else { a + 1 };
                            assert(s.in_flight[a] == old_state.in_flight[a2]);
                            if j < old_state.retry_queue.len() {
                                assert(s.retry_queue[j] == old_state.retry_queue[j]);
                            }
                        }
                        assert forall|a: int, b: int|
                            0 <= a < s.retry_queue.len() && 0 <= b < s.retry_queue.len() && a != b
                                implies #[trigger] s.retry_queue[a].0 != #[trigger] s.retry_queue[b].0 by {
                            if a < old_state.retry_queue.len() {
                                assert(s.retry_queue[a] == old_state.retry_queue[a]);
                            }
                            if b < old_state.retry_queue.len() {
                                assert(s.retry_queue[b] == old_state.retry_queue[b]);
                            }
                        }
                        assert forall|a: int| 0 <= a < s.in_flight.len() implies {
                            let t = #[trigger] s.in_flight[a];
                            &&& 2 <= t.page < s.current_page
                            &&& t.retries <= s.max_retries
                            &&& t.worker_id.0 < s.next_worker_id
                            &&& s.fetch_count(t.page) == t.retries + 1
                        } by {
                            let a2 = if a < i { a } else { a + 1 };
                            assert(s.in_flight[a] == old_state.in_flight[a2]);
                        }
                        assert forall|a: int| 0 <= a < s.retry_queue.len() implies {
                            let e = #[trigger] s.retry_queue[a];
                            &&& 2 <= e.0 < s.current_page
                            &&& 1 <= e.1 <= s.max_retries
                            &&& s.fetch_count(e.0) == e.1
                        } by {
                            if a < old_state.retry_queue.len() {
                                assert(s.retry_queue[a] == old_state.retry_queue[a]);
                            }
                        }
                    }
                    Completion::Retry { page: task.page, retries }
                } else {
                    proof {
                        let s = self@;
                        assert forall|a: int, b: int|
                            0 <= a < s.in_flight.len() && 0 <= b < s.in_flight.len() && a != b
                                implies #[trigger] s.in_flight[a].worker_id
                                != #[trigger] s.in_flight[b].worker_id && s.in_flight[a].page
                                != s.in_flight[b].page by {
                            let a2 = if a < i { a } else { a + 1 };
                            let b2 = if b < i { b } else { b + 1 };
                            assert(s.in_flight[a] == old_state.in_flight[a2]);
                            assert(s.in_flight[b] == old_state.in_flight[b2]);
                        }
                        assert forall|a: int, j: int|
                            0 <= a < s.in_flight.len() && 0 <= j < s.retry_queue.len()
                                implies #[trigger] s.in_flight[a].page != #[trigger] s.retry_queue[j].0 by {
                            let a2 = if a < i { a } else { a + 1 };
                            assert(s.in_flight[a] == old_state.in_flight[a2]);
                        }
                        assert forall|a: int| 0 <= a < s.in_flight.len() implies {
                            let t = #[trigger] s.in_flight[a];
                            &&& 2 <= t.page < s.current_page
                            &&& t.retries <= s.max_retries
                            &&& t.worker_id.0 < s.next_worker_id
                            &&& s.fetch_count(t.page) == t.retries + 1
                        } by {
                            let a2 = if a < i { a } else { a + 1 };
                            assert(s.in_flight[a] == old_state.in_flight[a2]);
                        }
                    }
                    Completion::Abandon { page: task.page }
                }
            },
        }
    }

    /// Whether the sweep is over: nothing in flight and nothing left to
    /// dispatch (all pages settled, or the limiter deferred the rest).
    pub fn is_done(&self) -> (r: bool)
        ensures
            r == self@.is_done(),
    {
        self.workers.len() == 0 && self.next_candidate().is_none()
    }

    /// `Finished`, or `PendingUntil` the instant the limiter named.
    pub fn status(&self) -> (r: AggregateStatus)
        ensures
            r == self@.status(),
    {
        match self.pending {
            Some(t) => AggregateStatus::PendingUntil(t),
            None => AggregateStatus::Finished,
        }
    }

    /// Clears a deferral so that dispatching goes on where it stopped.
    pub fn resume(&mut self)
        requires
            old(self)@.wf(),
        ensures
            final(self)@ == (SupervisorState { pending: None, ..old(self)@ }),
            final(self)@.wf(),
    {
        self.pending = None;
    }
}

/// At any instant a supervisor has at most `min(10, total_pages - 1)` fetches
/// in flight, `total_pages` being the count it was created with: every
/// transition keeps the bound it was created with and preserves `wf`.
pub proof fn lemma_concurrency_bound(s: SupervisorState, total_pages: usize)
    requires
        s.wf(),
        total_pages >= 2,
        s.task_bound == AggregatorSupervisor::new_spec(total_pages).task_bound,
    ensures
        s.in_flight.len() <= MAX_CONCURRENT_FETCHES,
        s.in_flight.len() <= total_pages - 1,
{
}

/// The transitions of a supervisor keep the bound on fetches in flight.
pub proof fn lemma_bound_is_kept(
    s: SupervisorState,
    permit: Result<(), u128>,
    now: i64,
    id: WorkerId,
    fetched: Result<usize, SourceError>,
)
    ensures
        s.spawn_spec(permit, now).0.task_bound == s.task_bound,
        s.complete_spec(id, fetched).0.task_bound == s.task_bound,
{
}

/// No page is fetched more than `max_retries + 1` times in one sweep, and
/// the supervisor never fetches page 1 (the aggregator fetched it already).
pub proof fn lemma_retry_bound(s: SupervisorState, page: usize)
    requires
        s.wf(),
    ensures
        s.fetch_count(page) <= s.max_retries + 1 == MAX_RETRIES + 1,
        page < 2 ==> s.fetch_count(page) == 0,
{
}

/// A fetch is handed out only when the limiter granted a token, and one
/// token never yields more than one fetch: the fetches of a sweep never
/// outnumber the tokens the limiter granted.
pub proof fn lemma_fetch_takes_a_token(s: SupervisorState, permit: Result<(), u128>, now: i64)
    ensures
        s.spawn_spec(permit, now).1 is Some ==> permit is Ok,
        s.spawn_spec(permit, now).0.in_flight.len() <= s.in_flight.len() + 1,
        permit is Err ==> s.spawn_spec(permit, now).0.in_flight == s.in_flight,
{
}

} // verus!
