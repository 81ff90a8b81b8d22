//! The host's side of one worker: the table of jobs that await a response,
//! and the decisions of the two event loops that share it.

use std::collections::BTreeMap;
use tokio::sync::oneshot;
use vstd::prelude::*;

use crate::message::ClientSocketMessage;
use crate::message::ServerSocketMessage;

verus! {

/// A message to a worker's event loop.
#[verifier::reject_recursive_types(R)]
pub enum EventLoopMessage<R, W> {
    /// A message for the worker, which is expected to answer it; the answer
    /// goes to `tx`.
    Bidirectional { data: W, tx: oneshot::Sender<R> },
    /// Close everything that belongs to this worker.
    Close,
}

/// The error of a message to a worker that is no longer running.
pub enum WorkerMessageError {
    /// This worker is offline.
    Offline,
}

/// The jobs of one worker that await a response: the id the next job gets,
/// and the responder of each pending job.
#[verifier::reject_recursive_types(R)]
pub struct JobTable<R> {
    pub next_id: u32,
    pub pending: Map<u32, oneshot::Sender<R>>,
}

/// The table after a job with responder `tx` was registered.
pub open spec fn registered<R>(t: JobTable<R>, tx: oneshot::Sender<R>) -> JobTable<R> {
    JobTable { next_id: t.next_id.wrapping_add(1), pending: t.pending.insert(t.next_id, tx) }
}

/// The table after job `id` was taken out of it.
pub open spec fn taken<R>(t: JobTable<R>, id: u32) -> JobTable<R> {
    JobTable { next_id: t.next_id, pending: t.pending.remove(id) }
}

/// The state that the two event loops of one worker share.
#[verifier::reject_recursive_types(R)]
pub struct EventLoopState<R> {
    job_count: u32,
    ongoing_jobs: BTreeMap<u32, oneshot::Sender<R>>,
}

impl<R> View for EventLoopState<R> {
    type V = JobTable<R>;

    closed spec fn view(&self) -> JobTable<R> {
        JobTable { next_id: self.job_count, pending: self.ongoing_jobs@ }
    }
}

impl<R> EventLoopState<R> {
    /// An empty table whose first job gets id 0.
    pub fn new() -> (s: Self)
        ensures
            s@.next_id == 0,
            s@.pending == Map::<u32, oneshot::Sender<R>>::empty(),
    {
        EventLoopState { job_count: 0, ongoing_jobs: BTreeMap::new() }
    }

    /// Registers a job whose answer goes to `tx`, and returns its id: the
    /// job count so far, which then advances by one (wrapping).
    pub fn add_job(&mut self, tx: oneshot::Sender<R>) -> (id: u32)
        ensures
            id == old(self)@.next_id,
            final(self)@ == registered(old(self)@, tx),
    {
        broadcast use vstd::std_specs::btree::group_btree_axioms;
        let next_id = self.job_count;
        self.job_count = next_id.wrapping_add(1);
        self.ongoing_jobs.insert(next_id, tx);
        next_id
    }

    /// Takes job `id` out of the table, with its responder; `None` when no
    /// such job is pending.
    pub fn take_job(&mut self, id: u32) -> (tx: Option<oneshot::Sender<R>>)
        ensures
            final(self)@ == taken(old(self)@, id),
            tx == (if old(self)@.pending.contains_key(id) {
                Some(old(self)@.pending[id])
            } else {
                None
            }),
    {
        broadcast use vstd::std_specs::btree::group_btree_axioms;
        self.ongoing_jobs.remove(&id)
    }
}


/// What the host-side loop that serves a worker's handle hears next.
#[verifier::reject_recursive_types(R)]
pub enum HostLoopEvent<R, W> {
    /// A message arrived from the worker's handle.
    Message(EventLoopMessage<R, W>),
    /// Every handle is gone: nobody is interested in this worker any more.
    Disconnected,
    /// The other loop of this worker asked for everything to stop.
    Abort,
}

/// What the host-side loop does next.
pub enum HostLoopAction<W> {
    /// Write this message to the worker's socket, then go on.
    Send(ServerSocketMessage<W>),
    /// Leave the loop.
    Stop,
}

/// What the loop that reads a worker's socket hears next.
pub enum WorkerLoopEvent<R> {
    /// A message arrived from the worker.
    Message(ClientSocketMessage<R>),
    /// Reading from the worker failed: it has disconnected, perhaps crashed.
    ReceiveFailed,
    /// The other loop of this worker asked for everything to stop.
    Abort,
}

/// What the loop that reads a worker's socket does next.
#[verifier::reject_recursive_types(R)]
pub enum WorkerLoopAction<R> {
    /// Hand `data` to the job's responder `tx`, then go on.
    Deliver { tx: oneshot::Sender<R>, data: R },
    /// The worker answered a job that is not pending; report it and go on.
    UnknownJob { job_id: u32 },
    /// Leave the loop.
    Stop,
}

/// The host-side loop's step: a message that expects an answer is
/// registered under the next job id and forwarded with that id; closing,
/// losing every handle and an abort all stop the loop.
pub open spec fn host_step<R, W>(t: JobTable<R>, event: HostLoopEvent<R, W>) -> (JobTable<R>, HostLoopAction<W>) {
    match event {
        HostLoopEvent::Message(EventLoopMessage::Bidirectional { data, tx }) => (
            registered(t, tx),
            HostLoopAction::Send(ServerSocketMessage::Bidirectional { data, job_id: t.next_id }),
        ),
        _ => (t, HostLoopAction::Stop),
    }
}

/// The socket-reading loop's step: a response to a pending job goes to that
/// job's responder and the job leaves the table; a response to any other id
/// is reported and changes nothing; a failed read and an abort stop the
/// loop.
pub open spec fn worker_step<R>(t: JobTable<R>, event: WorkerLoopEvent<R>) -> (JobTable<R>, WorkerLoopAction<R>) {
    match event {
        WorkerLoopEvent::Message(ClientSocketMessage::Response { data, job_id }) => {
            if t.pending.contains_key(job_id) {
                (taken(t, job_id), WorkerLoopAction::Deliver { tx: t.pending[job_id], data })
            } else {
                (t, WorkerLoopAction::UnknownJob { job_id })
            }
        },
        _ => (t, WorkerLoopAction::Stop),
    }
}

impl<R> EventLoopState<R> {
    /// Decides what the host-side loop of a worker does with `event`.
    pub fn event_loop_step<W>(&mut self, event: HostLoopEvent<R, W>) -> (action: HostLoopAction<W>)
        ensures
            final(self)@ == host_step(old(self)@, event).0,
            action == host_step(old(self)@, event).1,
    {
        match event {
            HostLoopEvent::Message(EventLoopMessage::Bidirectional { data, tx }) => {
                let job_id = self.add_job(tx);
                HostLoopAction::Send(ServerSocketMessage::Bidirectional { data, job_id })
            },
            HostLoopEvent::Message(EventLoopMessage::Close) => HostLoopAction::Stop,
            HostLoopEvent::Disconnected => HostLoopAction::Stop,
            HostLoopEvent::Abort => HostLoopAction::Stop,
        }
    }

    /// Decides what the loop that reads a worker's socket does with `event`.
    pub fn worker_event_loop_step(&mut self, event: WorkerLoopEvent<R>) -> (action: WorkerLoopAction<R>)
        ensures
            final(self)@ == worker_step(old(self)@, event).0,
            action == worker_step(old(self)@, event).1,
    {
        match event {
            WorkerLoopEvent::Message(ClientSocketMessage::Response { data, job_id }) => {
                match self.take_job(job_id) {
                    Some(tx) => WorkerLoopAction::Deliver { tx, data },
                    None => {
                        proof {
                            assert(old(self)@.pending.remove(job_id) == old(self)@.pending);
                        }
                        WorkerLoopAction::UnknownJob { job_id }
                    },
                }
            },
            WorkerLoopEvent::ReceiveFailed => WorkerLoopAction::Stop,
            WorkerLoopEvent::Abort => WorkerLoopAction::Stop,
        }
    }
}

/// The id that the `i`-th of a run of jobs gets when the first gets `start`.
pub open spec fn nth_job_id(start: u32, i: nat) -> u32 {
    ((start + i) % 0x1_0000_0000) as u32
}

/// The table after jobs with the responders `txs` were registered in order.
pub open spec fn registered_all<R>(t: JobTable<R>, txs: Seq<oneshot::Sender<R>>) -> JobTable<R>
    decreases txs.len(),
{
    if txs.len() == 0 {
        t
    } else {
        registered(registered_all(t, txs.drop_last()), txs.last())
    }
}

/// A response to a job reaches the responder the job was registered with:
/// the host forwards the job under the table's next id, and the worker's
/// answer to that id is handed to that responder and retires the job.
pub proof fn lemma_response_reaches_its_job<R, W>(t: JobTable<R>, data: W, tx: oneshot::Sender<R>, reply: R)
    ensures
        ({
            let (t1, sent) = host_step(t, HostLoopEvent::Message(EventLoopMessage::Bidirectional { data, tx }));
            let (t2, done) = worker_step(t1, WorkerLoopEvent::Message(ClientSocketMessage::Response { data: reply, job_id: t.next_id }));
            &&& sent == HostLoopAction::Send(ServerSocketMessage::Bidirectional { data, job_id: t.next_id })
            &&& done == WorkerLoopAction::Deliver { tx, data: reply }
            &&& t2.pending == t.pending.remove(t.next_id)
            &&& t2.next_id == t.next_id.wrapping_add(1)
        }),
{
    let t1 = registered(t, tx);
    assert(t1.pending.remove(t.next_id) == t.pending.remove(t.next_id));
}

/// A job's response is delivered at most once: once it has been handed to
/// the responder, a second response with the same id finds no job.
pub proof fn lemma_response_delivered_once<R>(t: JobTable<R>, first: R, second: R, job_id: u32)
    ensures
        ({
            let (t1, _) = worker_step(t, WorkerLoopEvent::Message(ClientSocketMessage::Response { data: first, job_id }));
            let (t2, again) = worker_step(t1, WorkerLoopEvent::Message(ClientSocketMessage::Response { data: second, job_id }));
            &&& again == WorkerLoopAction::<R>::UnknownJob { job_id }
            &&& t2 == t1
        }),
{
}

/// Closing, losing every handle, a failed read and an abort stop the loop
/// they reach and leave the job table as it was.
pub proof fn lemma_stopping_keeps_jobs<R, W>(t: JobTable<R>)
    ensures
        host_step(t, HostLoopEvent::<R, W>::Message(EventLoopMessage::Close)) == (t, HostLoopAction::<W>::Stop),
        host_step(t, HostLoopEvent::<R, W>::Disconnected) == (t, HostLoopAction::<W>::Stop),
        host_step(t, HostLoopEvent::<R, W>::Abort) == (t, HostLoopAction::<W>::Stop),
        worker_step(t, WorkerLoopEvent::<R>::ReceiveFailed) == (t, WorkerLoopAction::<R>::Stop),
        worker_step(t, WorkerLoopEvent::<R>::Abort) == (t, WorkerLoopAction::<R>::Stop),
{
}

/// Jobs registered in a row get consecutive ids (wrapping), and as long as
/// no more than 2^32 of them are registered, none overwrites another: each
/// is pending under its own id with its own responder.
pub proof fn lemma_registered_jobs_stay_apart<R>(t: JobTable<R>, txs: Seq<oneshot::Sender<R>>)
    requires
        txs.len() <= 0x1_0000_0000,
    ensures
        registered_all(t, txs).next_id == nth_job_id(t.next_id, txs.len()),
        forall|i: int| 0 <= i < txs.len() ==> #[trigger] registered_all(t, txs).pending.contains_key(nth_job_id(t.next_id, i as nat)),
        forall|i: int| 0 <= i < txs.len() ==> registered_all(t, txs).pending[#[trigger] nth_job_id(t.next_id, i as nat)] == txs[i],
    decreases txs.len(),
{
    if txs.len() > 0 {
        let prev = txs.drop_last();
        lemma_registered_jobs_stay_apart(t, prev);
        let n = (txs.len() - 1) as nat;
        assert forall|i: int| 0 <= i < n implies #[trigger] nth_job_id(t.next_id, i as nat) != nth_job_id(t.next_id, n) by {
            lemma_ids_differ(t.next_id, i as nat, n);
        }
        assert forall|i: int| 0 <= i < txs.len() implies registered_all(t, txs).pending[#[trigger] nth_job_id(t.next_id, i as nat)] == txs[i]
            && registered_all(t, txs).pending.contains_key(nth_job_id(t.next_id, i as nat)) by {
            if i < n {
                assert(prev[i] == txs[i]);
            }
        }
    }
}

/// Ids of two different positions in a run of at most 2^32 jobs differ.
pub proof fn lemma_ids_differ(start: u32, i: nat, j: nat)
    requires
        i < j < 0x1_0000_0000,
    ensures
        nth_job_id(start, i) != nth_job_id(start, j),
{
    let a = start + i;
    let b = start + j;
    assert(0 < b - a < 0x1_0000_0000);
    if a % 0x1_0000_0000 == b % 0x1_0000_0000 {
        vstd::arithmetic::div_mod::lemma_fundamental_div_mod(a, 0x1_0000_0000);
        vstd::arithmetic::div_mod::lemma_fundamental_div_mod(b, 0x1_0000_0000);
        assert(a / 0x1_0000_0000 <= 1);
        assert(b / 0x1_0000_0000 <= 1);
    }
}


/// A response reaches whichever job it names: for every table and every
/// pending id (not only the latest), the worker's answer with that id is
/// handed to that job's responder and the job, and only it, leaves the
/// table; an id that is not pending is reported and changes nothing.
pub proof fn lemma_response_reaches_any_pending_job<R>(t: JobTable<R>, job_id: u32, data: R)
    ensures
        t.pending.contains_key(job_id) ==> {
            let (after, action) = worker_step(t, WorkerLoopEvent::Message(ClientSocketMessage::Response { data, job_id }));
            &&& action == WorkerLoopAction::Deliver { tx: t.pending[job_id], data }
            &&& after.pending == t.pending.remove(job_id)
            &&& after.next_id == t.next_id
        },
        !t.pending.contains_key(job_id) ==> {
            let (after, action) = worker_step(t, WorkerLoopEvent::Message(ClientSocketMessage::Response { data, job_id }));
            &&& action == WorkerLoopAction::<R>::UnknownJob { job_id }
            &&& after == t
        },
{
}

} // verus!
