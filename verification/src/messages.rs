//! The state behind a small message board that several server workers
//! share: an id for each worker, drawn from one counter; a request count
//! that each worker keeps for itself; and the log of messages, which all
//! workers read and change, one at a time.

use vstd::arithmetic::div_mod::{
    lemma_fundamental_div_mod, lemma_fundamental_div_mod_converse, lemma_mod_equivalence,
    lemma_small_mod,
};
use vstd::prelude::*;

verus! {

/// How many workers the message server starts.
pub const WORKERS: usize = 8;

/// The largest request body, in bytes, that the server accepts as a message.
pub const JSON_LIMIT: usize = 4096;

/// The status that answers a request whose body could not be read.
pub const BAD_REQUEST: u16 = 400;

/// The host that the message server binds to.
pub fn host() -> (host: &'static str)
    ensures
        host@ == "127.0.0.1"@,
{
    "127.0.0.1"
}

/// The counter value that follows `value`: one more, and zero after the
/// largest.
pub open spec fn following(value: usize) -> usize {
    if value == usize::MAX {
        0
    } else {
        (value + 1) as usize
    }
}

/// The id that the allocation number `k` hands out, counting from zero,
/// when the counter stood at `start` before the first.
pub open spec fn nth_id(start: usize, k: nat) -> usize
    decreases k,
{
    if k == 0 {
        start
    } else {
        following(nth_id(start, (k - 1) as nat))
    }
}

/// The counter from which every worker draws its server id.
pub struct ServerCounter {
    next: usize,
    handed: Ghost<nat>,
}

impl ServerCounter {
    #[verifier::type_invariant]
    spec fn counts_from_zero(&self) -> bool {
        self.next == nth_id(0, self.handed@)
    }

    /// The id that the next worker gets.
    pub closed spec fn value(&self) -> usize {
        self.next
    }

    /// How many ids the counter has handed out.
    pub closed spec fn allocations(&self) -> nat {
        self.handed@
    }

    /// A counter that starts at zero.
    pub fn new() -> (counter: Self)
        ensures
            counter.value() == 0,
            counter.allocations() == 0,
    {
        ServerCounter { next: 0, handed: Ghost(0) }
    }

    /// Hands out the current value and steps the counter by one, wrapping
    /// around after the largest value: the allocation number `k`, counting
    /// from zero, hands out the id number `k`.
    pub fn fetch_add(&mut self) -> (previous: usize)
        ensures
            previous == old(self).value(),
            previous == nth_id(0, old(self).allocations()),
            final(self).value() == following(old(self).value()),
            final(self).allocations() == old(self).allocations() + 1,
    {
        proof {
            use_type_invariant(&*self);
        }
        let previous = self.next;
        let next = if previous == usize::MAX {
            0
        } else {
            previous + 1
        };
        *self = ServerCounter { next, handed: Ghost(self.handed@ + 1) };
        previous
    }
}

/// The ids that a counter hands out are those that one finds by counting
/// on from where it stood, modulo the number of values.
pub proof fn lemma_nth_id(start: usize, k: nat)
    ensures
        nth_id(start, k) == (start + k) % (usize::MAX + 1),
    decreases k,
{
    let m = usize::MAX + 1;
    if k == 0 {
        lemma_small_mod(start as nat, m as nat);
    } else {
        lemma_nth_id(start, (k - 1) as nat);
        let x = start + k - 1;
        let r = x % m;
        let q = x / m;
        lemma_fundamental_div_mod(x, m);
        assert(0 <= r < m);
        if r == usize::MAX {
            assert(x + 1 == (q + 1) * m + 0) by (nonlinear_arith)
                requires
                    x == m * q + r,
                    r == m - 1,
            ;
            lemma_fundamental_div_mod_converse(x + 1, m, q + 1, 0);
        } else {
            assert(x + 1 == q * m + (r + 1)) by (nonlinear_arith)
                requires
                    x == m * q + r,
            ;
            lemma_fundamental_div_mod_converse(x + 1, m, q, r + 1);
        }
    }
}

/// Server ids are unique: two allocations of one counter hand out different
/// ids, unless the counter has gone round between them: unless the number
/// of allocations from the one to the other is a multiple of the number of
/// values that the counter has.
pub proof fn lemma_server_ids_unique(start: usize, i: nat, j: nat)
    requires
        i < j,
        (j - i) % (usize::MAX + 1) != 0,
    ensures
        nth_id(start, i) != nth_id(start, j),
{
    lemma_nth_id(start, i);
    lemma_nth_id(start, j);
    lemma_mod_equivalence(start + j, start + i, usize::MAX + 1);
}

/// As long as a counter has handed out fewer ids than it has values, no id
/// has come twice.
pub proof fn lemma_first_ids_unique(start: usize, i: nat, j: nat)
    requires
        i < j <= usize::MAX,
    ensures
        nth_id(start, i) != nth_id(start, j),
{
    lemma_small_mod((j - i) as nat, (usize::MAX + 1) as nat);
    lemma_server_ids_unique(start, i, j);
}

/// The texts of a list of strings.
pub open spec fn texts(strings: Seq<String>) -> Seq<Seq<char>> {
    strings.map_values(|s: String| s@)
}

/// The messages that the workers share. A runtime keeps it behind a lock
/// and hands it to one handler at a time.
pub struct MessageLog {
    messages: Vec<String>,
}

impl MessageLog {
    /// The messages, oldest first.
    pub closed spec fn entries(&self) -> Seq<Seq<char>> {
        texts(self.messages@)
    }

    /// An empty log.
    pub fn new() -> (log: Self)
        ensures
            log.entries() == Seq::<Seq<char>>::empty(),
    {
        let log = MessageLog { messages: Vec::new() };
        assert(log.entries() =~= Seq::<Seq<char>>::empty());
        log
    }

    /// Adds a message behind all others.
    pub fn append(&mut self, message: String)
        ensures
            final(self).entries() == apply(old(self).entries(), LogOp::Append(message@)),
    {
        self.messages.push(message);
        assert(self.entries() =~= old(self).entries().push(message@));
    }

    /// Removes every message.
    pub fn clear(&mut self)
        ensures
            final(self).entries() == apply(old(self).entries(), LogOp::Clear),
    {
        self.messages.clear();
        assert(self.entries() =~= Seq::<Seq<char>>::empty());
    }

    /// A copy of the messages that does not share anything with the log, so
    /// that it can be used after the lock on the log was released.
    pub fn snapshot(&self) -> (copy: Vec<String>)
        ensures
            texts(copy@) == self.entries(),
    {
        let mut copy: Vec<String> = Vec::with_capacity(self.messages.len());
        let mut i: usize = 0;
        while i < self.messages.len()
            invariant
                i <= self.messages.len(),
                copy.len() == i,
                forall|k: int| 0 <= k < i ==> (#[trigger] copy[k])@ == self.messages[k]@,
            decreases self.messages.len() - i,
        {
            copy.push(self.messages[i].clone());
            i = i + 1;
        }
        assert(texts(copy@) =~= self.entries());
        copy
    }

    /// The number of messages.
    pub fn len(&self) -> (n: usize)
        ensures
            n == self.entries().len(),
    {
        self.messages.len()
    }
}

/// One operation on the shared log. Each is done under the lock, so the
/// operations of all workers follow one another in the order in which the
/// lock was taken.
pub enum LogOp {
    /// A message is added.
    Append(Seq<char>),
    /// All messages are removed.
    Clear,
    /// The messages are copied out; the log stays as it is.
    Snapshot,
}

/// The log after one operation.
pub open spec fn apply(entries: Seq<Seq<char>>, op: LogOp) -> Seq<Seq<char>> {
    match op {
        LogOp::Append(message) => entries.push(message),
        LogOp::Clear => Seq::empty(),
        LogOp::Snapshot => entries,
    }
}

/// The log after a history of operations, the first of them first.
pub open spec fn replay(entries: Seq<Seq<char>>, history: Seq<LogOp>) -> Seq<Seq<char>>
    decreases history.len(),
{
    if history.len() == 0 {
        entries
    } else {
        apply(replay(entries, history.drop_last()), history.last())
    }
}

/// The messages that a history adds, in the order in which it adds them.
pub open spec fn appended(history: Seq<LogOp>) -> Seq<Seq<char>>
    decreases history.len(),
{
    if history.len() == 0 {
        Seq::empty()
    } else {
        match history.last() {
            LogOp::Append(message) => appended(history.drop_last()).push(message),
            _ => appended(history.drop_last()),
        }
    }
}

/// Whether a history removes nothing.
pub open spec fn keeps_all(history: Seq<LogOp>) -> bool {
    forall|i: int| 0 <= i < history.len() ==> !(#[trigger] history[i] is Clear)
}

/// No append is lost: after a history that clears nothing, the log holds
/// what it held before and behind that every message that was added, in the
/// order in which the additions took the lock.
pub proof fn lemma_no_append_is_lost(entries: Seq<Seq<char>>, history: Seq<LogOp>)
    requires
        keeps_all(history),
    ensures
        replay(entries, history) == entries + appended(history),
    decreases history.len(),
{
    if history.len() == 0 {
        assert(entries + appended(history) =~= entries);
    } else {
        let before = history.drop_last();
        assert forall|i: int| 0 <= i < before.len() implies !(#[trigger] before[i] is Clear) by {
            assert(before[i] == history[i]);
        }
        lemma_no_append_is_lost(entries, before);
        assert(!(history[history.len() - 1] is Clear));
        assert(replay(entries, history) =~= entries + appended(history));
    }
}

/// A snapshot shows a moment of the log: what was copied out after the
/// first `k` operations of a history that clears nothing is the log of
/// before with the messages added by these `k` operations, and the log goes
/// on from there: the snapshot is the beginning of every later state.
pub proof fn lemma_snapshot_is_a_moment(entries: Seq<Seq<char>>, history: Seq<LogOp>, k: int)
    requires
        keeps_all(history),
        0 <= k <= history.len(),
    ensures
        replay(entries, history.take(k)) == entries + appended(history.take(k)),
        replay(entries, history.take(k)).is_prefix_of(replay(entries, history)),
    decreases history.len() - k,
{
    let seen = history.take(k);
    assert forall|i: int| 0 <= i < seen.len() implies !(#[trigger] seen[i] is Clear) by {
        assert(seen[i] == history[i]);
    }
    lemma_no_append_is_lost(entries, seen);
    if k < history.len() {
        lemma_snapshot_is_a_moment(entries, history, k + 1);
        let next = history.take(k + 1);
        assert(next.drop_last() =~= seen);
        assert(replay(entries, next) == apply(replay(entries, seen), next.last()));
        assert(!(history[k] is Clear));
        assert(replay(entries, seen).is_prefix_of(replay(entries, next)));
    } else {
        assert(seen =~= history);
    }
}

/// Clearing empties the log whatever came before.
pub proof fn lemma_clear_empties(entries: Seq<Seq<char>>, history: Seq<LogOp>)
    ensures
        replay(entries, history.push(LogOp::Clear)) == Seq::<Seq<char>>::empty(),
{
    assert(history.push(LogOp::Clear).last() == LogOp::Clear);
}

/// What one worker keeps for itself: its id and the number of requests it
/// has served.
pub struct AppState {
    server_id: usize,
    request_count: usize,
}

/// The answer to a request for the messages, and to a request to clear
/// them.
pub struct IndexResponse {
    pub server_id: usize,
    pub request_count: usize,
    pub messages: Vec<String>,
}

/// The body of a request that posts a message.
pub struct PostInput {
    pub message: String,
}

/// The answer to a posted message.
pub struct PostResponse {
    pub server_id: usize,
    pub request_count: usize,
    pub message: String,
}

/// The answer to a post whose body could not be read.
pub struct PostError {
    pub server_id: usize,
    pub request_count: usize,
    pub error: String,
}

impl AppState {
    pub closed spec fn id(&self) -> usize {
        self.server_id
    }

    pub closed spec fn requests(&self) -> usize {
        self.request_count
    }

    /// The state of a new worker: the next id of the counter, and no
    /// request served yet.
    pub fn new(counter: &mut ServerCounter) -> (state: Self)
        ensures
            state.id() == old(counter).value(),
            state.id() == nth_id(0, old(counter).allocations()),
            state.requests() == 0,
            final(counter).value() == following(old(counter).value()),
            final(counter).allocations() == old(counter).allocations() + 1,
    {
        AppState { server_id: counter.fetch_add(), request_count: 0 }
    }

    /// The id of the worker.
    pub fn server_id(&self) -> (id: usize)
        ensures
            id == self.id(),
    {
        self.server_id
    }

    /// The number of requests the worker has served.
    pub fn request_count(&self) -> (n: usize)
        ensures
            n == self.requests(),
    {
        self.request_count
    }

    /// Counts one more request and gives the new count.
    fn count_request(&mut self) -> (count: usize)
        requires
            old(self).requests() < usize::MAX,
        ensures
            count == old(self).requests() + 1,
            final(self).requests() == count,
            final(self).id() == old(self).id(),
    {
        let count = self.request_count + 1;
        self.request_count = count;
        count
    }
}

/// Serves a request for the messages: counts it, and answers with a copy
/// of the log as it stands.
pub fn index(state: &mut AppState, log: &MessageLog) -> (response: IndexResponse)
    requires
        old(state).requests() < usize::MAX,
    ensures
        final(state).id() == old(state).id(),
        final(state).requests() == old(state).requests() + 1,
        response.server_id == old(state).id(),
        response.request_count == old(state).requests() + 1,
        texts(response.messages@) == log.entries(),
{
    let request_count = state.count_request();
    IndexResponse { server_id: state.server_id, request_count, messages: log.snapshot() }
}

/// Serves a request to clear the messages: counts it, empties the log, and
/// answers with no messages.
pub fn clear(state: &mut AppState, log: &mut MessageLog) -> (response: IndexResponse)
    requires
        old(state).requests() < usize::MAX,
    ensures
        final(state).id() == old(state).id(),
        final(state).requests() == old(state).requests() + 1,
        final(log).entries() == Seq::<Seq<char>>::empty(),
        response.server_id == old(state).id(),
        response.request_count == old(state).requests() + 1,
        response.messages@ == Seq::<String>::empty(),
{
    let request_count = state.count_request();
    log.clear();
    IndexResponse { server_id: state.server_id, request_count, messages: Vec::new() }
}

/// Serves a posted message: counts the request, adds the message to the
/// log, and answers with the message.
pub fn post(msg: &PostInput, state: &mut AppState, log: &mut MessageLog) -> (response: PostResponse)
    requires
        old(state).requests() < usize::MAX,
    ensures
        final(state).id() == old(state).id(),
        final(state).requests() == old(state).requests() + 1,
        final(log).entries() == old(log).entries().push(msg.message@),
        response.server_id == old(state).id(),
        response.request_count == old(state).requests() + 1,
        response.message@ == msg.message@,
{
    let request_count = state.count_request();
    log.append(msg.message.clone());
    PostResponse { server_id: state.server_id, request_count, message: msg.message.clone() }
}

/// Serves a post whose body could not be read: counts the request and
/// answers with the text of the error. The log stays as it is.
pub fn post_error(error: String, state: &mut AppState) -> (response: PostError)
    requires
        old(state).requests() < usize::MAX,
    ensures
        final(state).id() == old(state).id(),
        final(state).requests() == old(state).requests() + 1,
        response.server_id == old(state).id(),
        response.request_count == old(state).requests() + 1,
        response.error == error,
{
    let request_count = state.count_request();
    PostError { server_id: state.server_id, request_count, error }
}

/// The message server: the port it listens on.
pub struct MessageApp {
    port: u16,
}

impl MessageApp {
    pub closed spec fn port_of(&self) -> u16 {
        self.port
    }

    /// A message server for the given port.
    pub fn new(port: u16) -> (app: Self)
        ensures
            app.port_of() == port,
    {
        MessageApp { port }
    }

    /// The port the server listens on.
    pub fn port(&self) -> (port: u16)
        ensures
            port == self.port_of(),
    {
        self.port
    }
}

} // verus!
