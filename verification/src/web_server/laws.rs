//! What holds of every run of the pool, whatever the order in which its
//! workers take their turns.

use crate::web_server::channel::Message;
use crate::web_server::pool::{
    lemma_claim, lemma_count_members, lemma_count_total, lemma_count_update, lemma_finish,
    lemma_head, lemma_join, lemma_terminate_all, PoolView, Step, ThreadState,
};
use vstd::prelude::*;

verus! {

/// Every job runs, and runs once: when shutdown has returned, each job that
/// was submitted has been handed to a worker, one worker for one job in the
/// order of submission, and each has come to its end. Nothing is left on the
/// channel.
pub proof fn lemma_all_jobs_run<J>(v: PoolView<J>)
    requires
        v.wf(),
        v.all_joined(),
    ensures
        v.started == v.submitted.len(),
        v.completed == v.submitted.len(),
        v.pending() == Seq::<Message<J>>::empty(),
{
    assert(v.threads[0] is None);
    assert(v.exited(0));
    lemma_count_members(v.threads, Some(ThreadState::Running));
    lemma_count_members(v.threads, Some(ThreadState::Waiting));
    if v.running() > 0 {
        let k = choose|k: int| 0 <= k < v.threads.len() && v.threads[k] == Some(
            ThreadState::Running,
        );
        assert(v.threads[k] is None);
    }
    if v.waiting() > 0 {
        let k = choose|k: int| 0 <= k < v.threads.len() && v.threads[k] == Some(
            ThreadState::Waiting,
        );
        assert(v.threads[k] is None);
    }
    assert(v.pending() =~= Seq::<Message<J>>::empty());
}

/// No thread is leaked: when shutdown has returned, no worker waits, runs a
/// job or is left unjoined.
pub proof fn lemma_shutdown_complete<J>(v: PoolView<J>)
    requires
        v.wf(),
        v.all_joined(),
    ensures
        v.waiting() == 0,
        v.running() == 0,
        v.finished() == 0,
        v.joined() == v.size(),
{
    lemma_count_members(v.threads, None);
    assert forall|i: int| 0 <= i < v.threads.len() implies v.threads[i] == None::<
        ThreadState,
    > by {
        assert(v.threads[i] is None);
    }
    lemma_count_total(v.threads);
}

/// Jobs leave the channel in the order in which they were submitted: the
/// job that a worker is handed is the oldest that no worker had, whichever
/// worker asks.
pub proof fn lemma_fifo_dispatch<J>(v: PoolView<J>, id: nat)
    requires
        v.wf(),
        v.can_claim(id),
    ensures
        v.started < v.submitted.len() ==> v.claimed(id) == Step::Run(
            v.submitted[v.started as int],
        ) && v.claim(id).started == v.started + 1,
        v.started == v.submitted.len() ==> v.claimed(id) == Step::<J>::Exit && v.claim(id).started
            == v.started,
        v.claim(id).submitted == v.submitted,
{
    lemma_head(v);
}

/// The state after the workers `0, 1, ..., upto - 1` have each asked for an
/// envelope, in this order.
pub open spec fn claim_each<J>(v: PoolView<J>, upto: nat) -> PoolView<J>
    decreases upto,
{
    if upto == 0 {
        v
    } else {
        claim_each(v, (upto - 1) as nat).claim((upto - 1) as nat)
    }
}

/// Workers run jobs side by side: a worker is handed a job whatever the
/// others are doing, so with every worker waiting and at least as many jobs
/// queued as there are workers, one turn of each worker has them all
/// running at once.
pub proof fn lemma_workers_run_in_parallel<J>(v: PoolView<J>, upto: nat)
    requires
        v.wf(),
        forall|id: int| 0 <= id < v.threads.len() ==> v.threads[id] == Some(ThreadState::Waiting),
        v.queued().len() >= v.size(),
        upto <= v.size(),
    ensures
        claim_each(v, upto).wf(),
        claim_each(v, upto).threads.len() == v.threads.len(),
        claim_each(v, upto).started == v.started + upto,
        claim_each(v, upto).submitted == v.submitted,
        forall|id: int|
            0 <= id < upto ==> claim_each(v, upto).threads[id] == Some(ThreadState::Running),
        forall|id: int|
            upto <= id < v.threads.len() ==> claim_each(v, upto).threads[id] == Some(
                ThreadState::Waiting,
            ),
        upto == v.size() ==> claim_each(v, upto).running() == v.size(),
    decreases upto,
{
    if upto > 0 {
        let id = (upto - 1) as nat;
        lemma_workers_run_in_parallel(v, id);
        let before = claim_each(v, id);
        assert(before.queued().len() > 0);
        assert(before.pending().len() > 0);
        lemma_claim(before, id);
        lemma_head(before);
    }
    if upto == v.size() {
        lemma_count_members(claim_each(v, upto).threads, Some(ThreadState::Running));
    }
}

/// Shutdown signals every worker: once it has begun, a worker that waits
/// finds an envelope on the channel, without any further submission.
pub proof fn lemma_waiting_worker_is_served<J>(v: PoolView<J>, id: nat)
    requires
        v.wf(),
        v.terminating,
        id < v.size(),
        v.threads[id as int] == Some(ThreadState::Waiting),
    ensures
        v.can_claim(id),
{
    lemma_count_members(v.threads, Some(ThreadState::Waiting));
    assert(v.signals() > 0);
}

/// With every worker idle and nothing queued, shutdown needs nothing but
/// one turn of each worker: each takes its terminate signal and leaves its
/// loop.
pub proof fn lemma_idle_shutdown<J>(v: PoolView<J>, upto: nat)
    requires
        v.wf(),
        v.terminating,
        v.started == v.submitted.len(),
        forall|id: int| 0 <= id < v.threads.len() ==> v.threads[id] == Some(ThreadState::Waiting),
        upto <= v.size(),
    ensures
        claim_each(v, upto).wf(),
        claim_each(v, upto).threads.len() == v.threads.len(),
        claim_each(v, upto).terminating,
        claim_each(v, upto).started == v.started,
        claim_each(v, upto).submitted == v.submitted,
        forall|id: int|
            0 <= id < upto ==> claim_each(v, upto).threads[id] == Some(ThreadState::Finished),
        forall|id: int|
            upto <= id < v.threads.len() ==> claim_each(v, upto).threads[id] == Some(
                ThreadState::Waiting,
            ),
    decreases upto,
{
    if upto > 0 {
        let id = (upto - 1) as nat;
        lemma_idle_shutdown(v, id);
        let before = claim_each(v, id);
        lemma_waiting_worker_is_served(before, id);
        lemma_claim(before, id);
        lemma_head(before);
    }
}

/// What is left to do before shutdown can return: two steps for each
/// envelope on the channel (it is taken, and its job ends or its worker is
/// joined), one for each running job, one for each thread to join.
pub open spec fn work_left<J>(v: PoolView<J>) -> nat {
    2 * v.pending().len() + v.running() + v.finished()
}

/// Shutdown comes to an end: every turn of a worker that changes the state
/// takes one off what is left to do, and while a thread is unjoined after
/// shutdown has begun, it can take such a turn: it is served if it waits,
/// its job ends if it runs one, and it can be joined if it has finished.
pub proof fn lemma_shutdown_progress<J>(v: PoolView<J>, id: nat)
    requires
        v.wf(),
        id < v.size(),
    ensures
        v.can_claim(id) ==> work_left(v.claim(id)) + 1 == work_left(v),
        v.is_running(id) ==> work_left(v.finish(id)) + 1 == work_left(v),
        v.can_join(id) ==> work_left(v.join(id)) + 1 == work_left(v),
        v.terminating && v.threads[id as int] is Some ==> v.can_claim(id) || v.is_running(id)
            || v.can_join(id),
        work_left(v) == 0 && v.terminating ==> v.all_joined(),
{
    let i = id as int;
    if v.can_claim(id) {
        let w = v.claim(id);
        lemma_claim(v, id);
        lemma_count_update(v.threads, i, w.threads[i], Some(ThreadState::Running));
        lemma_count_update(v.threads, i, w.threads[i], Some(ThreadState::Finished));
    }
    if v.is_running(id) {
        let w = v.finish(id);
        lemma_finish(v, id);
        lemma_count_update(v.threads, i, w.threads[i], Some(ThreadState::Running));
        lemma_count_update(v.threads, i, w.threads[i], Some(ThreadState::Finished));
    }
    if v.can_join(id) {
        let w = v.join(id);
        lemma_join(v, id);
        lemma_count_update(v.threads, i, w.threads[i], Some(ThreadState::Running));
        lemma_count_update(v.threads, i, w.threads[i], Some(ThreadState::Finished));
    }
    if v.terminating {
        match v.threads[i] {
            Some(ThreadState::Waiting) => {
                lemma_waiting_worker_is_served(v, id);
            },
            Some(ThreadState::Running) => {},
            Some(ThreadState::Finished) => {},
            None => {},
        }
    }
    if work_left(v) == 0 && v.terminating {
        lemma_count_members(v.threads, Some(ThreadState::Running));
        lemma_count_members(v.threads, Some(ThreadState::Finished));
        lemma_count_members(v.threads, Some(ThreadState::Waiting));
        assert(v.signals() == 0);
        assert forall|k: int| 0 <= k < v.threads.len() implies (#[trigger] v.threads[k]) is None by {
            match v.threads[k] {
                Some(ThreadState::Waiting) => {},
                Some(ThreadState::Running) => {},
                Some(ThreadState::Finished) => {},
                None => {},
            }
        }
    }
}

/// Shutdown waits for work in flight: while a worker runs a job its thread
/// cannot be joined, and trying changes nothing.
pub proof fn lemma_join_waits_for_job<J>(v: PoolView<J>, id: nat)
    requires
        v.wf(),
        v.is_running(id),
    ensures
        !v.can_join(id),
        v.join(id) == v,
        !v.all_joined(),
{
    assert(v.threads[id as int] is Some);
}

/// Beginning shutdown signals all workers: whatever they are doing, exactly
/// one terminate signal per worker goes on the channel, behind everything
/// that was submitted before.
pub proof fn lemma_one_signal_per_worker<J>(v: PoolView<J>)
    requires
        v.wf(),
        !v.terminating,
    ensures
        v.terminate_all().pending() == v.pending() + Seq::new(
            v.size(),
            |i: int| Message::<J>::Terminate,
        ),
        v.terminate_all().signals() == v.size(),
        v.pending() == v.queued().map_values(|job: J| Message::NewJob(job)),
{
    lemma_terminate_all(v);
    assert(v.pending() =~= v.queued().map_values(|job: J| Message::NewJob(job)));
    lemma_count_total(v.threads);
    lemma_count_members(v.threads, Some(ThreadState::Finished));
    lemma_count_members(v.threads, None);
    if v.finished() > 0 {
        let k = choose|k: int| 0 <= k < v.threads.len() && v.threads[k] == Some(
            ThreadState::Finished,
        );
        assert(v.exited(k));
    }
    if v.joined() > 0 {
        let k = choose|k: int|
            0 <= k < v.threads.len() && v.threads[k] == None::<ThreadState>;
        assert(v.exited(k));
    }
}

} // verus!
