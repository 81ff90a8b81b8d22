//! The worker's side: where it finds the host, and the decisions of the loop
//! that turns the host's messages into jobs and the answers into responses.

use tokio::sync::oneshot;
use vstd::prelude::*;

use crate::external::one_shot_channel;
use crate::message::ClientSocketMessage;
use crate::message::ServerSocketMessage;

verus! {

/// Errors of connecting to the host that spawned this worker.
pub enum ConnectError {
    /// The variable that names the host's socket is not set.
    SocketVariableNotFound,
    /// Connecting failed.
    Io(std::io::Error),
}

/// A job that the host sent to this worker.
#[verifier::reject_recursive_types(W)]
pub enum Job<R, W> {
    /// A message that expects no answer.
    Unidirectional { data: R },
    /// A message whose answer is to be sent on `tx`.
    Bidirectional { data: R, tx: oneshot::Sender<W> },
}

/// The socket to connect to, from the value of the environment variable
/// that names it (`None` when it is not set or not valid unicode).
pub fn socket_path_from_env(value: Option<String>) -> (r: Result<String, ConnectError>)
    ensures
        value is None <==> r is Err,
        (r matches Err(e) ==> (e is SocketVariableNotFound)),
        (value matches Some(v) ==> (r matches Ok(path) && path == v)),
{
    match value {
        Some(v) => Ok(v),
        None => Err(ConnectError::SocketVariableNotFound),
    }
}

/// What the worker's message loop hears next.
pub enum ClientLoopEvent<R, W> {
    /// A message arrived from the host.
    Received(ServerSocketMessage<R>),
    /// Reading from the host failed.
    ReceiveFailed,
    /// The job could not be handed on: nobody receives jobs any more.
    JobRejected,
    /// The job `job_id` was answered with `answer`, or its responder was
    /// dropped without an answer (`None`).
    Answered { job_id: u32, answer: Option<W> },
}

/// What the worker's message loop does next.
#[verifier::reject_recursive_types(W)]
pub enum ClientLoopAction<R, W> {
    /// Hand `job` on; where `reply` is given, await the answer to job id
    /// `reply.0` on `reply.1`.
    Forward { job: Job<R, W>, reply: Option<(u32, oneshot::Receiver<W>)> },
    /// Send this response to the host, then go on.
    Respond(ClientSocketMessage<W>),
    /// Go on with the next message.
    Continue,
    /// Leave the loop.
    Stop,
}

/// What the worker's message loop does with `event`: a message that
/// expects no answer becomes a job as it is; one that expects an answer
/// becomes a job with a responder, whose answer is awaited under the
/// message's job id; an answer becomes the response for its job; a job
/// dropped unanswered is skipped; a failed read, or nobody to take jobs,
/// ends the loop.
pub open spec fn client_step_fits<R, W>(event: ClientLoopEvent<R, W>, action: ClientLoopAction<R, W>) -> bool {
    &&& (event matches ClientLoopEvent::Received(ServerSocketMessage::Unidirectional { data })
        ==> action == (ClientLoopAction::<R, W>::Forward { job: Job::Unidirectional { data }, reply: None }))
    &&& (event matches ClientLoopEvent::Received(ServerSocketMessage::Bidirectional { data, job_id })
        ==> (action matches ClientLoopAction::Forward { job: Job::Bidirectional { data: d, tx: _ }, reply: Some((id, _)) }
            && d == data && id == job_id))
    &&& (event matches ClientLoopEvent::Answered { job_id, answer: Some(w) }
        ==> action == ClientLoopAction::<R, W>::Respond(ClientSocketMessage::Response { data: w, job_id }))
    &&& (event matches ClientLoopEvent::Answered { answer: None, .. }) ==> (action is Continue)
    &&& (event is ReceiveFailed) ==> (action is Stop)
    &&& (event is JobRejected) ==> (action is Stop)
}

/// Decides what the worker's message loop does with `event`: a message that
/// expects no answer becomes a job as it is; one that expects an answer
/// becomes a job with a fresh responder, whose answer is awaited under the
/// message's job id; an answer becomes the response for its job; a job
/// dropped unanswered is skipped; a failed read, or nobody to take jobs,
/// ends the loop.
pub fn client_loop_step<R, W>(event: ClientLoopEvent<R, W>) -> (action: ClientLoopAction<R, W>)
    ensures
        client_step_fits(event, action),
{
    match event {
        ClientLoopEvent::Received(ServerSocketMessage::Unidirectional { data }) => {
            ClientLoopAction::Forward { job: Job::Unidirectional { data }, reply: None }
        },
        ClientLoopEvent::Received(ServerSocketMessage::Bidirectional { data, job_id }) => {
            let (tx, rx) = one_shot_channel();
            ClientLoopAction::Forward { job: Job::Bidirectional { data, tx }, reply: Some((job_id, rx)) }
        },
        ClientLoopEvent::Answered { job_id, answer } => match answer {
            Some(data) => ClientLoopAction::Respond(ClientSocketMessage::Response { data, job_id }),
            None => ClientLoopAction::Continue,
        },
        ClientLoopEvent::ReceiveFailed => ClientLoopAction::Stop,
        ClientLoopEvent::JobRejected => ClientLoopAction::Stop,
    }
}

/// Where the worker's message loop stands.
pub enum ClientLoopPhase {
    /// It reads the next message from the host.
    Reading,
    /// It has handed on the job `job_id`, which expects an answer, and waits
    /// for that answer before it reads again.
    Awaiting { job_id: u32 },
    /// It has left the loop.
    Stopped,
}

/// Whether the message loop, standing at `phase`, can hear `event`: while
/// it reads, anything but an answer; while it awaits job `job_id`, only the
/// answer to that job, or the news that the job could not be handed on;
/// once stopped, nothing.
pub open spec fn loop_accepts<R, W>(phase: ClientLoopPhase, event: ClientLoopEvent<R, W>) -> bool {
    match phase {
        ClientLoopPhase::Reading => !(event is Answered),
        ClientLoopPhase::Awaiting { job_id } => {
            ||| event is JobRejected
            ||| (event matches ClientLoopEvent::Answered { job_id: j, .. } && j == job_id)
        },
        ClientLoopPhase::Stopped => false,
    }
}

/// Where the message loop stands after `event`: a message that expects an
/// answer makes it await that job's answer; any other message, and an
/// answer, send it back to reading; a failed read, or nobody to take jobs,
/// stop it.
pub open spec fn next_phase<R, W>(event: ClientLoopEvent<R, W>) -> ClientLoopPhase {
    match event {
        ClientLoopEvent::Received(ServerSocketMessage::Bidirectional { job_id, .. }) => ClientLoopPhase::Awaiting { job_id },
        ClientLoopEvent::Received(ServerSocketMessage::Unidirectional { .. }) => ClientLoopPhase::Reading,
        ClientLoopEvent::Answered { .. } => ClientLoopPhase::Reading,
        ClientLoopEvent::ReceiveFailed => ClientLoopPhase::Stopped,
        ClientLoopEvent::JobRejected => ClientLoopPhase::Stopped,
    }
}

/// The worker's message loop: its decisions, and where it stands.
pub struct ClientLoop {
    phase: ClientLoopPhase,
}

impl View for ClientLoop {
    type V = ClientLoopPhase;

    closed spec fn view(&self) -> ClientLoopPhase {
        self.phase
    }
}

impl ClientLoop {
    /// A message loop that is about to read its first message.
    pub fn new() -> (l: Self)
        ensures
            l@ == ClientLoopPhase::Reading,
    {
        ClientLoop { phase: ClientLoopPhase::Reading }
    }

    /// Whether the loop can hear `event` where it stands.
    pub fn accepts<R, W>(&self, event: &ClientLoopEvent<R, W>) -> (ok: bool)
        ensures
            ok == loop_accepts(self@, *event),
    {
        match &self.phase {
            ClientLoopPhase::Reading => match event {
                ClientLoopEvent::Answered { .. } => false,
                _ => true,
            },
            ClientLoopPhase::Awaiting { job_id } => match event {
                ClientLoopEvent::JobRejected => true,
                ClientLoopEvent::Answered { job_id: j, .. } => *j == *job_id,
                _ => false,
            },
            ClientLoopPhase::Stopped => false,
        }
    }

    /// Decides what the loop does with `event`, as `client_loop_step`
    /// does, and moves on to where the loop then stands.
    pub fn step<R, W>(&mut self, event: ClientLoopEvent<R, W>) -> (action: ClientLoopAction<R, W>)
        requires
            loop_accepts(old(self)@, event),
        ensures
            final(self)@ == next_phase(event),
            client_step_fits(event, action),
    {
        let next = match &event {
            ClientLoopEvent::Received(ServerSocketMessage::Bidirectional { job_id, .. }) => ClientLoopPhase::Awaiting { job_id: *job_id },
            ClientLoopEvent::Received(ServerSocketMessage::Unidirectional { .. }) => ClientLoopPhase::Reading,
            ClientLoopEvent::Answered { .. } => ClientLoopPhase::Reading,
            ClientLoopEvent::ReceiveFailed => ClientLoopPhase::Stopped,
            ClientLoopEvent::JobRejected => ClientLoopPhase::Stopped,
        };
        let action = client_loop_step(event);
        self.phase = next;
        action
    }
}

/// Where the message loop stands after hearing `events` from the start, or
/// `None` where it could not hear one of them.
pub open spec fn phase_after<R, W>(events: Seq<ClientLoopEvent<R, W>>) -> Option<ClientLoopPhase>
    decreases events.len(),
{
    if events.len() == 0 {
        Some(ClientLoopPhase::Reading)
    } else {
        match phase_after(events.drop_last()) {
            Some(p) => if loop_accepts(p, events.last()) {
                Some(next_phase(events.last()))
            } else {
                None
            },
            None => None,
        }
    }
}

/// The job ids of the messages among `events` that expect an answer, in
/// order.
pub open spec fn requested_jobs<R, W>(events: Seq<ClientLoopEvent<R, W>>) -> Seq<u32>
    decreases events.len(),
{
    if events.len() == 0 {
        Seq::empty()
    } else {
        let before = requested_jobs(events.drop_last());
        match events.last() {
            ClientLoopEvent::Received(ServerSocketMessage::Bidirectional { job_id, .. }) => before.push(job_id),
            _ => before,
        }
    }
}

/// The job ids of the answers among `events`, in order.
pub open spec fn answered_jobs<R, W>(events: Seq<ClientLoopEvent<R, W>>) -> Seq<u32>
    decreases events.len(),
{
    if events.len() == 0 {
        Seq::empty()
    } else {
        let before = answered_jobs(events.drop_last());
        match events.last() {
            ClientLoopEvent::Answered { job_id, .. } => before.push(job_id),
            _ => before,
        }
    }
}

/// The worker answers one job at a time, in order: over any run of events
/// that the message loop can hear from its start, the answers come in the
/// order of the requests, and at most one request is outstanding; while
/// one is, the loop awaits that job and reads no further message.
pub proof fn lemma_jobs_answered_in_order<R, W>(events: Seq<ClientLoopEvent<R, W>>)
    requires
        phase_after(events) is Some,
    ensures
        answered_jobs(events) == requested_jobs(events).take(answered_jobs(events).len() as int),
        requested_jobs(events).len() <= answered_jobs(events).len() + 1,
        phase_after(events) == Some(ClientLoopPhase::Reading) ==> requested_jobs(events) == answered_jobs(events),
        (phase_after(events) matches Some(ClientLoopPhase::Awaiting { job_id })
            ==> (requested_jobs(events).len() == answered_jobs(events).len() + 1
                && requested_jobs(events).last() == job_id)),
    decreases events.len(),
{
    if events.len() > 0 {
        let prev = events.drop_last();
        lemma_jobs_answered_in_order(prev);
        let rq = requested_jobs(prev);
        let an = answered_jobs(prev);
        assert(an == rq.take(an.len() as int));
        match events.last() {
            ClientLoopEvent::Answered { job_id, .. } => {
                assert(rq.take(an.len() + 1int) == an.push(job_id));
                assert(rq.take(an.len() + 1int) == rq);
            },
            ClientLoopEvent::Received(ServerSocketMessage::Bidirectional { job_id, .. }) => {
                assert(rq.push(job_id).take(an.len() as int) == rq.take(an.len() as int));
            },
            _ => {},
        }
    }
}

} // verus!
