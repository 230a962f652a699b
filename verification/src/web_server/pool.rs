//! The worker pool as a state machine.
//!
//! The pool owns the sending end of the dispatch channel and one record per
//! worker. A runtime drives it: the acceptor calls [`ThreadPool::execute`];
//! each worker thread calls [`ThreadPool::claim`] while it holds the lock on
//! the shared receiver, runs the job it was handed after it has released that
//! lock, and reports back with [`ThreadPool::finish`]. Shutdown is
//! [`ThreadPool::terminate_all`] followed by one [`ThreadPool::join`] per
//! worker.
//!
//! A job that panics is caught by the runtime and reported finished like any
//! other, so a worker leaves its loop only on a terminate signal or when the
//! channel is closed.

use crate::web_server::channel::{Channel, Message, Received};
use vstd::prelude::*;

verus! {

/// Where the thread of a worker stands.
#[derive(Clone, Copy, PartialEq, Eq, Debug, Structural)]
pub enum ThreadState {
    /// Blocked on the shared receiver.
    Waiting,
    /// Running a job, with the receiver released.
    Running,
    /// Out of its loop; it can be joined.
    Finished,
}

/// What a worker does after it has asked the channel for an envelope.
#[derive(Debug, PartialEq, Eq)]
pub enum Step<J> {
    /// Release the receiver, then run this job once.
    Run(J),
    /// Leave the loop and let the thread end.
    Exit,
    /// Nothing to do yet: keep waiting on the receiver.
    Wait,
}

/// How many of the threads are in the given state (`None`: already joined).
pub open spec fn count(threads: Seq<Option<ThreadState>>, state: Option<ThreadState>) -> nat
    decreases threads.len(),
{
    if threads.len() == 0 {
        0
    } else {
        count(threads.drop_last(), state) + if threads.last() == state {
            1nat
        } else {
            0nat
        }
    }
}

/// `n` terminate signals.
pub open spec fn terminates<J>(n: nat) -> Seq<Message<J>> {
    Seq::new(n, |i: int| Message::<J>::Terminate)
}

/// The jobs of `jobs`, each in its envelope.
pub open spec fn envelopes<J>(jobs: Seq<J>) -> Seq<Message<J>> {
    jobs.map_values(|job: J| Message::NewJob(job))
}

/// The abstract state of a pool.
pub struct PoolView<J> {
    /// The thread of each worker, by worker id; `None` once it was joined.
    pub threads: Seq<Option<ThreadState>>,
    /// Every job that was ever submitted, in the order of submission.
    pub submitted: Seq<J>,
    /// How many of them were handed to a worker.
    pub started: nat,
    /// How many of them have run to their end.
    pub completed: nat,
    /// Whether shutdown has begun.
    pub terminating: bool,
}

impl<J> PoolView<J> {
    /// A fresh pool of `size` workers, all waiting, with nothing submitted.
    pub open spec fn initial(size: nat) -> Self {
        PoolView {
            threads: Seq::new(size, |i: int| Some(ThreadState::Waiting)),
            submitted: Seq::empty(),
            started: 0,
            completed: 0,
            terminating: false,
        }
    }

    pub open spec fn size(self) -> nat {
        self.threads.len()
    }

    pub open spec fn waiting(self) -> nat {
        count(self.threads, Some(ThreadState::Waiting))
    }

    pub open spec fn running(self) -> nat {
        count(self.threads, Some(ThreadState::Running))
    }

    pub open spec fn finished(self) -> nat {
        count(self.threads, Some(ThreadState::Finished))
    }

    pub open spec fn joined(self) -> nat {
        count(self.threads, None)
    }

    /// The jobs that no worker has taken yet, oldest first.
    pub open spec fn queued(self) -> Seq<J> {
        self.submitted.skip(self.started as int)
    }

    /// The terminate signals that are still on the channel: once shutdown
    /// has begun, one for each worker that is still in its loop.
    pub open spec fn signals(self) -> nat {
        if self.terminating {
            self.waiting() + self.running()
        } else {
            0
        }
    }

    /// What is on the dispatch channel: the queued jobs, and behind them the
    /// terminate signals.
    pub open spec fn pending(self) -> Seq<Message<J>> {
        envelopes(self.queued()) + terminates(self.signals())
    }

    /// Whether the thread of worker `id` has left its loop.
    pub open spec fn exited(self, id: int) -> bool {
        self.threads[id] == Some(ThreadState::Finished) || self.threads[id] is None
    }

    /// Whether every worker was joined: shutdown has returned.
    pub open spec fn all_joined(self) -> bool {
        forall|id: int| 0 <= id < self.threads.len() ==> (#[trigger] self.threads[id]) is None
    }

    /// The invariant of the pool.
    pub open spec fn wf(self) -> bool {
        &&& self.threads.len() >= 1
        &&& self.started <= self.submitted.len()
        &&& self.completed + self.running() == self.started
        &&& !self.terminating ==> forall|id: int|
            0 <= id < self.threads.len() ==> !#[trigger] self.exited(id)
        &&& forall|id: int|
            0 <= id < self.threads.len() && #[trigger] self.exited(id) ==> self.started
                == self.submitted.len()
    }

    /// The state after `job` was submitted.
    pub open spec fn execute(self, job: J) -> Self {
        PoolView { submitted: self.submitted.push(job), ..self }
    }

    /// Whether worker `id` can take an envelope: it waits on the receiver
    /// and something is pending.
    pub open spec fn can_claim(self, id: nat) -> bool {
        &&& id < self.threads.len()
        &&& self.threads[id as int] == Some(ThreadState::Waiting)
        &&& self.pending().len() > 0
    }

    /// What worker `id` is told when it asks for the next envelope.
    pub open spec fn claimed(self, id: nat) -> Step<J> {
        if self.can_claim(id) {
            match self.pending()[0] {
                Message::NewJob(job) => Step::Run(job),
                Message::Terminate => Step::Exit,
            }
        } else {
            Step::Wait
        }
    }

    /// The state after worker `id` has asked for the next envelope.
    pub open spec fn claim(self, id: nat) -> Self {
        if self.can_claim(id) {
            match self.pending()[0] {
                Message::NewJob(_) => PoolView {
                    threads: self.threads.update(id as int, Some(ThreadState::Running)),
                    started: self.started + 1,
                    ..self
                },
                Message::Terminate => PoolView {
                    threads: self.threads.update(id as int, Some(ThreadState::Finished)),
                    ..self
                },
            }
        } else {
            self
        }
    }

    /// Whether worker `id` is running a job.
    pub open spec fn is_running(self, id: nat) -> bool {
        id < self.threads.len() && self.threads[id as int] == Some(ThreadState::Running)
    }

    /// The state after the job of worker `id` has come to its end.
    pub open spec fn finish(self, id: nat) -> Self {
        if self.is_running(id) {
            PoolView {
                threads: self.threads.update(id as int, Some(ThreadState::Waiting)),
                completed: self.completed + 1,
                ..self
            }
        } else {
            self
        }
    }

    /// The state after one terminate signal per worker was sent.
    pub open spec fn terminate_all(self) -> Self {
        PoolView { terminating: true, ..self }
    }

    /// Whether the thread of worker `id` can be joined without blocking:
    /// it has left its loop and nobody has joined it yet.
    pub open spec fn can_join(self, id: nat) -> bool {
        id < self.threads.len() && self.threads[id as int] == Some(ThreadState::Finished)
    }

    /// The state after an attempt to join worker `id`.
    pub open spec fn join(self, id: nat) -> Self {
        if self.can_join(id) {
            PoolView { threads: self.threads.update(id as int, None), ..self }
        } else {
            self
        }
    }
}

/// No count exceeds the number of threads.
pub proof fn lemma_count_bound(threads: Seq<Option<ThreadState>>, state: Option<ThreadState>)
    ensures
        count(threads, state) <= threads.len(),
    decreases threads.len(),
{
    if threads.len() > 0 {
        lemma_count_bound(threads.drop_last(), state);
    }
}

/// A thread that is in the counted state is counted, and where all are in
/// it the count is their number; where none is, the count is zero.
pub proof fn lemma_count_members(threads: Seq<Option<ThreadState>>, state: Option<ThreadState>)
    ensures
        (exists|i: int| 0 <= i < threads.len() && threads[i] == state) <==> count(threads, state)
            > 0,
        (forall|i: int| 0 <= i < threads.len() ==> threads[i] == state) <==> count(threads, state)
            == threads.len(),
    decreases threads.len(),
{
    if threads.len() > 0 {
        let front = threads.drop_last();
        lemma_count_members(front, state);
        lemma_count_bound(front, state);
        let last = threads.len() - 1;
        if count(threads, state) > 0 {
            if threads.last() == state {
                assert(threads[last] == state);
            } else {
                let i = choose|i: int| 0 <= i < front.len() && front[i] == state;
                assert(threads[i] == state);
            }
        }
        if exists|i: int| 0 <= i < threads.len() && threads[i] == state {
            let i = choose|i: int| 0 <= i < threads.len() && threads[i] == state;
            if i < last {
                assert(front[i] == state);
            }
        }
        if forall|i: int| 0 <= i < threads.len() ==> threads[i] == state {
            assert forall|i: int| 0 <= i < front.len() implies front[i] == state by {
                assert(threads[i] == state);
            }
        }
        if count(threads, state) == threads.len() {
            assert(threads.last() == state);
            assert forall|i: int| 0 <= i < threads.len() implies threads[i] == state by {
                if i < last {
                    assert(front[i] == state);
                }
            }
        }
    }
}

/// Changing one thread moves it from the count of its old state to that of
/// its new one.
pub proof fn lemma_count_update(
    threads: Seq<Option<ThreadState>>,
    id: int,
    to: Option<ThreadState>,
    state: Option<ThreadState>,
)
    requires
        0 <= id < threads.len(),
    ensures
        count(threads.update(id, to), state) == count(threads, state) - (if threads[id] == state {
            1int
        } else {
            0int
        }) + (if to == state {
            1int
        } else {
            0int
        }),
    decreases threads.len(),
{
    let last = threads.len() - 1;
    if id == last {
        assert(threads.update(id, to).drop_last() =~= threads.drop_last());
    } else {
        lemma_count_update(threads.drop_last(), id, to, state);
        assert(threads.update(id, to).drop_last() =~= threads.drop_last().update(id, to));
    }
}

/// Every thread is waiting, running, finished or joined.
pub proof fn lemma_count_total(threads: Seq<Option<ThreadState>>)
    ensures
        count(threads, Some(ThreadState::Waiting)) + count(threads, Some(ThreadState::Running))
            + count(threads, Some(ThreadState::Finished)) + count(threads, None) == threads.len(),
    decreases threads.len(),
{
    if threads.len() > 0 {
        lemma_count_total(threads.drop_last());
        match threads.last() {
            Some(ThreadState::Waiting) => {},
            Some(ThreadState::Running) => {},
            Some(ThreadState::Finished) => {},
            None => {},
        }
    }
}

/// One worker of the pool: its place among the workers and its thread, which
/// is there until it is joined.
pub struct Worker {
    pub id: usize,
    pub thread: Option<ThreadState>,
}

impl Worker {
    /// A worker whose thread has entered its loop and waits on the receiver.
    pub fn new(id: usize) -> (worker: Worker)
        ensures
            worker.id == id,
            worker.thread == Some(ThreadState::Waiting),
    {
        Worker { id, thread: Some(ThreadState::Waiting) }
    }

    /// The decision of the worker loop: a job is run, a terminate signal or
    /// a closed channel ends the loop, an empty channel means waiting.
    pub open spec fn decide<J>(received: Received<J>) -> Step<J> {
        match received {
            Received::Envelope(Message::NewJob(job)) => Step::Run(job),
            Received::Envelope(Message::Terminate) => Step::Exit,
            Received::Closed => Step::Exit,
            Received::Empty => Step::Wait,
        }
    }

    /// Decides what the loop does with what the channel gave.
    pub fn on_receive<J>(received: Received<J>) -> (step: Step<J>)
        ensures
            step == Self::decide(received),
    {
        match received {
            Received::Envelope(Message::NewJob(job)) => Step::Run(job),
            Received::Envelope(Message::Terminate) => Step::Exit,
            Received::Closed => Step::Exit,
            Received::Empty => Step::Wait,
        }
    }
}

/// A pool of a fixed number of workers that share one dispatch channel.
pub struct ThreadPool<J> {
    workers: Vec<Worker>,
    sender: Channel<J>,
    terminating: bool,
    submitted: Ghost<Seq<J>>,
    started: Ghost<nat>,
    completed: Ghost<nat>,
}

impl<J> View for ThreadPool<J> {
    type V = PoolView<J>;

    closed spec fn view(&self) -> PoolView<J> {
        PoolView {
            threads: Seq::new(self.workers.len() as nat, |i: int| self.workers[i].thread),
            submitted: self.submitted@,
            started: self.started@,
            completed: self.completed@,
            terminating: self.terminating,
        }
    }
}

impl<J> ThreadPool<J> {
    /// The invariant of the pool: its state is well formed, and it is held
    /// as the state says.
    pub open spec fn wf(&self) -> bool {
        self@.wf() && self.held()
    }

    /// How the pool holds its state: the channel is open and holds what
    /// the state says is pending, and each worker carries its index.
    pub closed spec fn held(&self) -> bool {
        &&& self.sender.is_open()
        &&& self.sender.pending() == self@.pending()
        &&& forall|i: int| 0 <= i < self.workers.len() ==> (#[trigger] self.workers[i]).id == i
    }

    /// Creates a pool of `size` workers, each waiting for work.
    pub fn new(size: usize) -> (pool: Self)
        requires
            size > 0,
        ensures
            pool.wf(),
            pool@ == PoolView::<J>::initial(size as nat),
    {
        let sender = Channel::new();
        let mut workers: Vec<Worker> = Vec::with_capacity(size);
        let mut id: usize = 0;
        while id < size
            invariant
                id <= size,
                workers.len() == id,
                forall|i: int|
                    0 <= i < id ==> (#[trigger] workers[i]).id == i && workers[i].thread == Some(
                        ThreadState::Waiting,
                    ),
            decreases size - id,
        {
            workers.push(Worker::new(id));
            id = id + 1;
        }
        let pool = ThreadPool {
            workers,
            sender,
            terminating: false,
            submitted: Ghost(Seq::empty()),
            started: Ghost(0),
            completed: Ghost(0),
        };
        proof {
            assert(pool@.threads =~= PoolView::<J>::initial(size as nat).threads);
            lemma_initial_wf::<J>(size as nat);
            assert(pool@.pending() =~= Seq::<Message<J>>::empty());
        }
        pool
    }

    /// Submits a job: it is put in an envelope and sent down the channel,
    /// behind all that was submitted before. Must not be called once
    /// shutdown has begun.
    pub fn execute(&mut self, f: J)
        requires
            old(self).wf(),
            !old(self)@.terminating,
        ensures
            final(self).wf(),
            final(self)@ == old(self)@.execute(f),
    {
        proof {
            lemma_execute(self@, f);
        }
        let sent = self.sender.send(Message::NewJob(f));
        assert(sent is Ok);
        proof {
            self.submitted@ = self.submitted@.push(f);
        }
        assert(self@.threads =~= old(self)@.threads);
    }

    /// One turn of the loop of worker `id`, to be taken while the worker
    /// holds the shared receiver: it receives the oldest envelope, if it
    /// waits and there is one, and is told what to do. A job that is handed
    /// out here is handed out to nobody else; the worker runs it after it
    /// has let go of the receiver.
    pub fn claim(&mut self, id: usize) -> (step: Step<J>)
        requires
            old(self).wf(),
        ensures
            final(self).wf(),
            final(self)@ == old(self)@.claim(id as nat),
            step == old(self)@.claimed(id as nat),
    {
        if id >= self.workers.len() {
            return Step::Wait;
        }
        let waits = match self.workers[id].thread {
            Some(ThreadState::Waiting) => true,
            _ => false,
        };
        if !waits || self.sender.len() == 0 {
            return Step::Wait;
        }
        proof {
            lemma_claim(self@, id as nat);
            lemma_head(self@);
        }
        let step = Worker::on_receive(self.sender.recv());
        match step {
            Step::Run(job) => {
                self.workers.set(id, Worker { id, thread: Some(ThreadState::Running) });
                proof {
                    self.started@ = self.started@ + 1;
                }
                assert(self@.threads =~= old(self)@.claim(id as nat).threads);
                Step::Run(job)
            },
            Step::Exit => {
                self.workers.set(id, Worker { id, thread: Some(ThreadState::Finished) });
                assert(self@.threads =~= old(self)@.claim(id as nat).threads);
                Step::Exit
            },
            Step::Wait => unreached(),
        }
    }

    /// Worker `id` reports that the job it was handed has come to its end,
    /// by returning or by a panic that the runtime caught: the worker waits
    /// on the receiver again. Without effect if the worker runs no job.
    pub fn finish(&mut self, id: usize)
        requires
            old(self).wf(),
        ensures
            final(self).wf(),
            final(self)@ == old(self)@.finish(id as nat),
    {
        if id >= self.workers.len() {
            return ;
        }
        let runs = match self.workers[id].thread {
            Some(ThreadState::Running) => true,
            _ => false,
        };
        if runs {
            proof {
                lemma_finish(self@, id as nat);
                self.completed@ = self.completed@ + 1;
            }
            self.workers.set(id, Worker { id, thread: Some(ThreadState::Waiting) });
            assert(self@.threads =~= old(self)@.finish(id as nat).threads);
        }
    }

    /// The first phase of shutdown: sends one terminate signal for each
    /// worker, before any thread is joined. Without effect if shutdown has
    /// begun already.
    pub fn terminate_all(&mut self)
        requires
            old(self).wf(),
        ensures
            final(self).wf(),
            final(self)@ == (if old(self)@.terminating {
                old(self)@
            } else {
                old(self)@.terminate_all()
            }),
    {
        if self.terminating {
            return ;
        }
        proof {
            lemma_terminate_all(self@);
        }
        let size = self.workers.len();
        let mut sent: usize = 0;
        while sent < size
            invariant
                sent <= size,
                size == self.workers.len(),
                self.workers == old(self).workers,
                self.submitted == old(self).submitted,
                self.started == old(self).started,
                self.completed == old(self).completed,
                self.terminating == old(self).terminating,
                self.sender.is_open(),
                self.sender.pending() == old(self).sender.pending() + terminates::<J>(sent as nat),
            decreases size - sent,
        {
            let result = self.sender.send(Message::Terminate);
            assert(result is Ok);
            sent = sent + 1;
            assert(self.sender.pending() =~= old(self).sender.pending() + terminates::<J>(
                sent as nat,
            ));
        }
        self.terminating = true;
        assert(self@.threads =~= old(self)@.threads);
    }

    /// The second phase of shutdown, for worker `id`: takes the thread out
    /// of the worker if it has left its loop. While the thread still waits
    /// or runs a job it is left in place and the answer is `false`: a
    /// runtime that blocks in its join calls this when the join has
    /// returned.
    pub fn join(&mut self, id: usize) -> (joined: bool)
        requires
            old(self).wf(),
        ensures
            final(self).wf(),
            final(self)@ == old(self)@.join(id as nat),
            joined == old(self)@.can_join(id as nat),
    {
        if id >= self.workers.len() {
            return false;
        }
        let done = match self.workers[id].thread {
            Some(ThreadState::Finished) => true,
            _ => false,
        };
        if done {
            proof {
                lemma_join(self@, id as nat);
            }
            self.workers.set(id, Worker { id, thread: None });
            assert(self@.threads =~= old(self)@.join(id as nat).threads);
        }
        done
    }

    /// The number of workers.
    pub fn size(&self) -> (size: usize)
        ensures
            size == self@.size(),
    {
        self.workers.len()
    }

    /// Whether shutdown has begun.
    pub fn is_terminating(&self) -> (terminating: bool)
        ensures
            terminating == self@.terminating,
    {
        self.terminating
    }

    /// The thread of worker `id`: `None` if it was joined, or if the pool
    /// has no such worker.
    pub fn thread(&self, id: usize) -> (thread: Option<ThreadState>)
        ensures
            thread == (if id < self@.size() {
                self@.threads[id as int]
            } else {
                None
            }),
    {
        if id < self.workers.len() {
            self.workers[id].thread
        } else {
            None
        }
    }

    /// The number of envelopes on the channel.
    pub fn pending(&self) -> (n: usize)
        requires
            self.wf(),
        ensures
            n == self@.pending().len(),
    {
        self.sender.len()
    }
}

/// A fresh pool is well formed and its channel is empty.
pub proof fn lemma_initial_wf<J>(size: nat)
    requires
        size >= 1,
    ensures
        PoolView::<J>::initial(size).wf(),
        PoolView::<J>::initial(size).pending() == Seq::<Message<J>>::empty(),
        PoolView::<J>::initial(size).waiting() == size,
{
    let v = PoolView::<J>::initial(size);
    lemma_count_members(v.threads, Some(ThreadState::Waiting));
    lemma_count_members(v.threads, Some(ThreadState::Running));
    assert(v.pending() =~= Seq::<Message<J>>::empty());
}

/// Submitting keeps the invariant and puts the job, in its envelope, behind
/// everything that is pending.
pub proof fn lemma_execute<J>(v: PoolView<J>, job: J)
    requires
        v.wf(),
        !v.terminating,
    ensures
        v.execute(job).wf(),
        v.execute(job).pending() == v.pending().push(Message::NewJob(job)),
{
    let w = v.execute(job);
    assert forall|id: int| 0 <= id < w.threads.len() implies !#[trigger] w.exited(id) by {
        assert(!v.exited(id));
    }
    assert(w.queued() =~= v.queued().push(job));
    assert(w.pending() =~= v.pending().push(Message::NewJob(job)));
}

/// While jobs are queued the oldest of them heads the channel; when none is,
/// whatever is pending is a terminate signal.
pub proof fn lemma_head<J>(v: PoolView<J>)
    requires
        v.wf(),
        v.pending().len() > 0,
    ensures
        v.started < v.submitted.len() ==> v.pending()[0] == Message::NewJob(
            v.submitted[v.started as int],
        ),
        v.started == v.submitted.len() ==> v.pending()[0] == Message::<J>::Terminate
            && v.terminating,
{
}

/// A worker that asks for an envelope keeps the invariant, and if it could
/// take one, that one has left the channel.
pub proof fn lemma_claim<J>(v: PoolView<J>, id: nat)
    requires
        v.wf(),
    ensures
        v.claim(id).wf(),
        v.can_claim(id) ==> v.claim(id).pending() == v.pending().drop_first(),
        !v.can_claim(id) ==> v.claim(id) == v,
{
    if v.can_claim(id) {
        let w = v.claim(id);
        lemma_head(v);
        let i = id as int;
        lemma_count_update(v.threads, i, w.threads[i], Some(ThreadState::Waiting));
        lemma_count_update(v.threads, i, w.threads[i], Some(ThreadState::Running));
        assert forall|k: int| 0 <= k < w.threads.len() && k != i implies w.exited(k) == v.exited(
            k,
        ) by {}
        if v.started < v.submitted.len() {
            assert(w.queued() =~= v.queued().drop_first());
            assert(w.signals() == v.signals());
            assert(w.pending() =~= v.pending().drop_first());
            assert(!w.exited(i));
            assert forall|k: int| 0 <= k < w.threads.len() implies !#[trigger] w.exited(k) by {
                if k != i {
                    assert(w.exited(k) == v.exited(k));
                    if v.exited(k) {
                        assert(v.started == v.submitted.len());
                    }
                }
            }
        } else {
            assert(w.queued() =~= v.queued());
            assert(w.signals() + 1 == v.signals());
            assert(w.pending() =~= v.pending().drop_first());
        }
    }
}

/// A job that ends keeps the invariant and leaves the channel as it is.
pub proof fn lemma_finish<J>(v: PoolView<J>, id: nat)
    requires
        v.wf(),
    ensures
        v.finish(id).wf(),
        v.finish(id).pending() == v.pending(),
{
    if v.is_running(id) {
        let w = v.finish(id);
        let i = id as int;
        lemma_count_update(v.threads, i, w.threads[i], Some(ThreadState::Waiting));
        lemma_count_update(v.threads, i, w.threads[i], Some(ThreadState::Running));
        assert forall|k: int| 0 <= k < w.threads.len() implies w.exited(k) == v.exited(k) by {}
        assert(w.pending() =~= v.pending());
    }
}

/// Beginning shutdown keeps the invariant and puts one terminate signal
/// per worker behind everything that is pending.
pub proof fn lemma_terminate_all<J>(v: PoolView<J>)
    requires
        v.wf(),
        !v.terminating,
    ensures
        v.terminate_all().wf(),
        v.terminate_all().pending() == v.pending() + terminates::<J>(v.size()),
{
    let w = v.terminate_all();
    lemma_count_total(v.threads);
    lemma_count_members(v.threads, Some(ThreadState::Finished));
    lemma_count_members(v.threads, None);
    if v.finished() > 0 {
        let k = choose|k: int| 0 <= k < v.threads.len() && v.threads[k] == Some(
            ThreadState::Finished,
        );
        assert(v.exited(k));
    }
    if v.joined() > 0 {
        let k = choose|k: int|
            0 <= k < v.threads.len() && v.threads[k] == None::<ThreadState>;
        assert(v.exited(k));
    }
    assert(w.signals() == v.size());
    assert forall|k: int| 0 <= k < w.threads.len() implies !#[trigger] w.exited(k) by {
        assert(!v.exited(k));
    }
    assert(w.pending() =~= v.pending() + terminates::<J>(v.size()));
}

/// Joining a thread keeps the invariant and leaves the channel as it is.
pub proof fn lemma_join<J>(v: PoolView<J>, id: nat)
    requires
        v.wf(),
    ensures
        v.join(id).wf(),
        v.join(id).pending() == v.pending(),
{
    if v.can_join(id) {
        let w = v.join(id);
        let i = id as int;
        lemma_count_update(v.threads, i, w.threads[i], Some(ThreadState::Waiting));
        lemma_count_update(v.threads, i, w.threads[i], Some(ThreadState::Running));
        assert(v.exited(i));
        assert forall|k: int| 0 <= k < w.threads.len() implies w.exited(k) == v.exited(k) by {}
        assert(w.pending() =~= v.pending());
    }
}

} // verus!
