//! The job queue shared by a pool's workers, and the pool's lifecycle.
//!
//! Threads are started and joined by the caller; this module decides how many
//! there are, when work may still be queued, how many termination signals a
//! shutdown sends, and in which order queued messages are handed out.

use vstd::prelude::*;
use std::collections::VecDeque;

verus! {

/// One entry of the job queue.
pub enum Message<J> {
    /// A unit of work.
    NewJob(J),
    /// Tells the worker that receives it to exit.
    Terminate,
}

/// `n` termination signals in a row.
pub open spec fn terminations<J>(n: nat) -> Seq<Message<J>> {
    Seq::new(n, |i: int| Message::Terminate)
}

/// How many termination signals a sequence of messages holds.
pub open spec fn count_terminations<J>(s: Seq<Message<J>>) -> nat
    decreases s.len(),
{
    if s.len() == 0 {
        0
    } else {
        count_terminations(s.drop_last()) + if s.last() is Terminate { 1nat } else { 0nat }
    }
}

/// Whether every message of `s` is a unit of work.
pub open spec fn all_jobs<J>(s: Seq<Message<J>>) -> bool {
    forall|i: int| 0 <= i < s.len() ==> (#[trigger] s[i]) is NewJob
}

proof fn lemma_count_take_step<J>(s: Seq<Message<J>>, k: int)
    requires
        0 <= k < s.len(),
    ensures
        count_terminations(s.take(k + 1)) == count_terminations(s.take(k)) + if s[k] is Terminate {
            1nat
        } else {
            0nat
        },
{
    assert(s.take(k + 1).drop_last() =~= s.take(k));
}

proof fn lemma_count_taken<J>(pending: Seq<Message<J>>, n: nat, i: int)
    requires
        all_jobs(pending),
        0 <= i <= pending.len() + n,
    ensures
        count_terminations((pending + terminations::<J>(n)).take(i)) == if i <= pending.len() {
            0
        } else {
            i - pending.len()
        },
    decreases i,
{
    let q = pending + terminations::<J>(n);
    if i == 0 {
        assert(q.take(0) =~= Seq::<Message<J>>::empty());
    } else {
        lemma_count_taken(pending, n, i - 1);
        lemma_count_take_step(q, i - 1);
        if i - 1 < pending.len() {
            assert(q[i - 1] == pending[i - 1]);
        } else {
            assert(q[i - 1] == terminations::<J>(n)[i - 1 - pending.len()]);
        }
    }
}

/// Workers take messages from the front of the queue one at a time, so after
/// `k` removals they have been handed `queued.take(k)`. When a shutdown has put
/// `n > 0` termination signals behind the jobs `pending`, the `n` workers have all
/// received their signal exactly when `pending.len() + n` messages have been
/// removed, and any worker's signal is handed out only after every pending job
/// has been handed out, each once and in the order it was queued.
pub proof fn lemma_drain_before_exit<J>(pending: Seq<Message<J>>, n: nat, k: nat)
    requires
        all_jobs(pending),
        n > 0,
        k <= pending.len() + n,
    ensures
        ({
            let taken = (pending + terminations::<J>(n)).take(k as int);
            &&& count_terminations(taken) == n <==> k == pending.len() + n
            &&& count_terminations(taken) > 0 ==> taken.take(pending.len() as int) == pending
        }),
{
    let q = pending + terminations::<J>(n);
    lemma_count_taken(pending, n, k as int);
    if k > pending.len() {
        assert(q.take(k as int).take(pending.len() as int) =~= pending);
    }
}

/// A first-in, first-out queue of messages with no bound on its length.
pub struct JobQueue<J> {
    items: VecDeque<Message<J>>,
}

impl<J> View for JobQueue<J> {
    type V = Seq<Message<J>>;

    /// The queued messages, oldest first.
    closed spec fn view(&self) -> Seq<Message<J>> {
        self.items@
    }
}

impl<J> JobQueue<J> {
    /// An empty queue.
    pub fn new() -> (r: Self)
        ensures
            r@ == Seq::<Message<J>>::empty(),
    {
        JobQueue { items: VecDeque::new() }
    }

    /// The number of queued messages.
    pub fn len(&self) -> (r: usize)
        ensures
            r == self@.len(),
    {
        self.items.len()
    }

    /// Appends a message at the back.
    pub fn push(&mut self, msg: Message<J>)
        ensures
            final(self)@ == old(self)@.push(msg),
    {
        self.items.push_back(msg);
    }

    /// Removes and returns the oldest message, if any.
    pub fn pop(&mut self) -> (r: Option<Message<J>>)
        ensures
            old(self)@.len() == 0 ==> r is None && final(self)@ == old(self)@,
            old(self)@.len() > 0 ==> r == Some(old(self)@[0]) && final(self)@ == old(self)@.drop_first(),
    {
        self.items.pop_front()
    }

    /// Appends `n` termination signals at the back.
    pub fn push_terminations(&mut self, n: usize)
        ensures
            final(self)@ == old(self)@ + terminations::<J>(n as nat),
    {
        let mut i: usize = 0;
        while i < n
            invariant
                i <= n,
                self@ == old(self)@ + terminations::<J>(i as nat),
            decreases n - i,
        {
            self.push(Message::Terminate);
            proof {
                assert(terminations::<J>((i + 1) as nat) =~= terminations::<J>(i as nat).push(
                    Message::Terminate,
                ));
                assert(old(self)@ + terminations::<J>((i + 1) as nat) =~= (old(self)@
                    + terminations::<J>(i as nat)).push(Message::Terminate));
            }
            i = i + 1;
        }
    }
}

/// The number of workers a pool of the requested size runs: the size itself,
/// or the host's logical processor count `cpus` when the size is zero.
pub open spec fn worker_count(size: nat, cpus: nat) -> nat {
    if size == 0 {
        cpus
    } else {
        size
    }
}

/// Relies on num_cpus::get: the logical processors available to this process,
/// which it documents as never fewer than one.
#[verifier::external_body]
fn logical_cpus() -> (r: usize)
    ensures
        r >= 1,
{
    num_cpus::get()
}

/// Resolves a requested pool size against a processor count.
pub fn resolve_size(size: usize, cpus: usize) -> (r: usize)
    ensures
        r == worker_count(size as nat, cpus as nat),
{
    if size == 0 {
        cpus
    } else {
        size
    }
}

/// Where a pool is in its life.
#[derive(PartialEq, Eq, Structural, Clone, Copy, Debug)]
pub enum Phase {
    /// Work may be submitted.
    Accepting,
    /// Termination signals have been queued; no more work is taken.
    Draining,
    /// Every worker has exited.
    Terminated,
}

/// The bookkeeping of a pool: its fixed number of workers and its phase.
pub struct PoolState {
    workers: usize,
    phase: Phase,
}

impl PoolState {
    /// The number of workers, fixed for the pool's life.
    pub closed spec fn spec_workers(&self) -> nat {
        self.workers as nat
    }

    /// The pool's phase.
    pub closed spec fn spec_phase(&self) -> Phase {
        self.phase
    }

    /// A pool that runs `worker_count(size, cpus)` workers and accepts work,
    /// for a given processor count `cpus`.
    pub fn with_cpus(size: usize, cpus: usize) -> (r: Self)
        ensures
            r.spec_workers() == worker_count(size as nat, cpus as nat),
            r.spec_phase() == Phase::Accepting,
    {
        PoolState { workers: resolve_size(size, cpus), phase: Phase::Accepting }
    }

    /// A pool of the requested size, taking the host's logical processor
    /// count when the size is zero; it accepts work.
    pub fn new(size: usize) -> (r: Self)
        ensures
            size > 0 ==> r.spec_workers() == size,
            r.spec_workers() >= 1,
            r.spec_phase() == Phase::Accepting,
    {
        let cpus = logical_cpus();
        Self::with_cpus(size, cpus)
    }

    /// The number of workers to start.
    pub fn workers(&self) -> (r: usize)
        ensures
            r == self.spec_workers(),
    {
        self.workers
    }

    /// The pool's phase.
    pub fn phase(&self) -> (r: Phase)
        ensures
            r == self.spec_phase(),
    {
        self.phase
    }

    /// Whether work may be submitted.
    pub fn is_accepting(&self) -> (r: bool)
        ensures
            r == (self.spec_phase() == Phase::Accepting),
    {
        self.phase == Phase::Accepting
    }

    /// Queues a unit of work; only an accepting pool takes work.
    pub fn submit<J>(&self, queue: &mut JobQueue<J>, job: J)
        requires
            self.spec_phase() == Phase::Accepting,
        ensures
            final(queue)@ == old(queue)@.push(Message::NewJob(job)),
    {
        queue.push(Message::NewJob(job));
    }

    /// Stops taking work and queues one termination signal per worker, behind
    /// every job already queued. Returns how many signals were queued: one per
    /// worker on the first call, none on any later one.
    pub fn shutdown<J>(&mut self, queue: &mut JobQueue<J>) -> (r: usize)
        ensures
            r == if old(self).spec_phase() == Phase::Accepting { old(self).spec_workers() } else { 0 },
            final(queue)@ == old(queue)@ + terminations::<J>(r as nat),
            final(self).spec_workers() == old(self).spec_workers(),
            final(self).spec_phase() == if old(self).spec_phase() == Phase::Accepting {
                Phase::Draining
            } else {
                old(self).spec_phase()
            },
    {
        if self.phase == Phase::Accepting {
            self.phase = Phase::Draining;
            queue.push_terminations(self.workers);
            self.workers
        } else {
            proof {
                assert(old(queue)@ + terminations::<J>(0) =~= old(queue)@);
            }
            0
        }
    }

    /// Records that every worker has exited; only a draining pool gets there.
    pub fn finish(&mut self)
        requires
            old(self).spec_phase() == Phase::Draining,
        ensures
            final(self).spec_phase() == Phase::Terminated,
            final(self).spec_workers() == old(self).spec_workers(),
    {
        self.phase = Phase::Terminated;
    }
}

} // verus!
