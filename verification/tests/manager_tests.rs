use ipc2::manager::EventLoopMessage;
use ipc2::manager::EventLoopState;
use ipc2::manager::HostLoopAction;
use ipc2::manager::HostLoopEvent;
use ipc2::manager::WorkerLoopAction;
use ipc2::manager::WorkerLoopEvent;
use ipc2::message::ClientSocketMessage;
use ipc2::message::ServerSocketMessage;
use tokio::sync::oneshot;

#[test]
fn add_job_hands_out_consecutive_ids() {
    let mut state: EventLoopState<u32> = EventLoopState::new();
    let (tx0, _rx0) = oneshot::channel();
    let (tx1, _rx1) = oneshot::channel();
    let (tx2, _rx2) = oneshot::channel();
    assert_eq!(state.add_job(tx0), 0);
    assert_eq!(state.add_job(tx1), 1);
    assert_eq!(state.add_job(tx2), 2);
}

#[test]
fn take_job_gives_back_the_registered_responder_once() {
    let mut state: EventLoopState<u32> = EventLoopState::new();
    let (tx, mut rx) = oneshot::channel();
    let id = state.add_job(tx);
    let taken = state.take_job(id);
    let sender = match taken {
        Some(s) => s,
        None => panic!("the job must be pending"),
    };
    assert!(sender.send(42).is_ok());
    assert_eq!(rx.try_recv().ok(), Some(42));
    assert!(state.take_job(id).is_none());
}

#[test]
fn take_job_of_unknown_id_is_none() {
    let mut state: EventLoopState<u32> = EventLoopState::new();
    let (tx, _rx) = oneshot::channel();
    state.add_job(tx);
    assert!(state.take_job(7).is_none());
    assert!(state.take_job(0).is_some());
}

#[test]
fn host_step_forwards_bidirectional_with_next_id() {
    let mut state: EventLoopState<u32> = EventLoopState::new();
    let (tx, _rx) = oneshot::channel();
    let action = state.event_loop_step(HostLoopEvent::Message(EventLoopMessage::Bidirectional {
        data: String::from("job"),
        tx,
    }));
    match action {
        HostLoopAction::Send(ServerSocketMessage::Bidirectional { data, job_id }) => {
            assert_eq!(data, "job");
            assert_eq!(job_id, 0);
        }
        _ => panic!("must forward the job"),
    }
    assert!(state.take_job(0).is_some());
}

#[test]
fn host_step_stops_on_close_disconnect_and_abort() {
    let mut state: EventLoopState<u32> = EventLoopState::new();
    let close = state.event_loop_step(HostLoopEvent::<u32, String>::Message(EventLoopMessage::Close));
    assert!(matches!(close, HostLoopAction::Stop));
    let gone = state.event_loop_step(HostLoopEvent::<u32, String>::Disconnected);
    assert!(matches!(gone, HostLoopAction::Stop));
    let abort = state.event_loop_step(HostLoopEvent::<u32, String>::Abort);
    assert!(matches!(abort, HostLoopAction::Stop));
    let (tx, _rx) = oneshot::channel();
    assert_eq!(state.add_job(tx), 0);
}

#[test]
fn response_reaches_its_job() {
    let mut state: EventLoopState<u32> = EventLoopState::new();
    let (tx_a, mut rx_a) = oneshot::channel();
    let (tx_b, mut rx_b) = oneshot::channel();
    let a = state.event_loop_step(HostLoopEvent::Message(EventLoopMessage::Bidirectional { data: 1u8, tx: tx_a }));
    let b = state.event_loop_step(HostLoopEvent::Message(EventLoopMessage::Bidirectional { data: 2u8, tx: tx_b }));
    let id_b = match b {
        HostLoopAction::Send(ServerSocketMessage::Bidirectional { job_id, .. }) => job_id,
        _ => panic!("must forward"),
    };
    assert!(matches!(a, HostLoopAction::Send(ServerSocketMessage::Bidirectional { job_id: 0, data: 1 })));
    assert_eq!(id_b, 1);
    let action = state.worker_event_loop_step(WorkerLoopEvent::Message(ClientSocketMessage::Response {
        data: 20,
        job_id: id_b,
    }));
    match action {
        WorkerLoopAction::Deliver { tx, data } => {
            assert_eq!(data, 20);
            assert!(tx.send(data).is_ok());
        }
        _ => panic!("must deliver"),
    }
    assert_eq!(rx_b.try_recv().ok(), Some(20));
    assert!(rx_a.try_recv().is_err());
}

#[test]
fn response_delivered_once() {
    let mut state: EventLoopState<u32> = EventLoopState::new();
    let (tx, _rx) = oneshot::channel();
    let id = state.add_job(tx);
    let first = state.worker_event_loop_step(WorkerLoopEvent::Message(ClientSocketMessage::Response { data: 1, job_id: id }));
    assert!(matches!(first, WorkerLoopAction::Deliver { data: 1, .. }));
    let second = state.worker_event_loop_step(WorkerLoopEvent::Message(ClientSocketMessage::Response { data: 2, job_id: id }));
    assert!(matches!(second, WorkerLoopAction::UnknownJob { job_id: 0 }));
}

#[test]
fn worker_step_reports_unknown_job_and_stops_on_failure() {
    let mut state: EventLoopState<u32> = EventLoopState::new();
    let unknown = state.worker_event_loop_step(WorkerLoopEvent::Message(ClientSocketMessage::Response { data: 5, job_id: 99 }));
    assert!(matches!(unknown, WorkerLoopAction::UnknownJob { job_id: 99 }));
    assert!(matches!(state.worker_event_loop_step(WorkerLoopEvent::ReceiveFailed), WorkerLoopAction::Stop));
    assert!(matches!(state.worker_event_loop_step(WorkerLoopEvent::Abort), WorkerLoopAction::Stop));
}

#[test]
fn registered_jobs_stay_apart() {
    let mut state: EventLoopState<usize> = EventLoopState::new();
    let mut receivers = Vec::new();
    let mut ids = Vec::new();
    for _ in 0..50 {
        let (tx, rx) = oneshot::channel();
        ids.push(state.add_job(tx));
        receivers.push(rx);
    }
    for (i, id) in ids.iter().enumerate() {
        assert_eq!(*id as usize, i);
        match state.take_job(*id) {
            Some(tx) => assert!(tx.send(i).is_ok()),
            None => panic!("every job must be pending"),
        }
    }
    for (i, rx) in receivers.iter_mut().enumerate() {
        assert_eq!(rx.try_recv().ok(), Some(i));
    }
}
