use ipc2::message::ClientSocketMessage;
use ipc2::message::ServerSocketMessage;
use ipc2::worker::client_loop_step;
use ipc2::worker::socket_path_from_env;
use ipc2::worker::ClientLoopAction;
use ipc2::worker::ClientLoopEvent;
use ipc2::worker::ConnectError;
use ipc2::worker::Job;

#[test]
fn socket_path_from_env_takes_the_value() {
    match socket_path_from_env(Some(String::from("/tmp/ipc2-1-2"))) {
        Ok(p) => assert_eq!(p, "/tmp/ipc2-1-2"),
        Err(_) => panic!("a set variable must be used"),
    }
}

#[test]
fn socket_path_from_env_missing_variable() {
    assert!(matches!(socket_path_from_env(None), Err(ConnectError::SocketVariableNotFound)));
}

#[test]
fn unidirectional_message_becomes_a_job_without_reply() {
    let action = client_loop_step::<u32, u64>(ClientLoopEvent::Received(ServerSocketMessage::Unidirectional { data: 3 }));
    assert!(matches!(action, ClientLoopAction::Forward { job: Job::Unidirectional { data: 3 }, reply: None }));
}

#[test]
fn bidirectional_message_becomes_a_job_awaiting_its_answer() {
    let action = client_loop_step::<u32, u64>(ClientLoopEvent::Received(ServerSocketMessage::Bidirectional {
        data: 4,
        job_id: 17,
    }));
    match action {
        ClientLoopAction::Forward { job: Job::Bidirectional { data, tx }, reply: Some((job_id, mut rx)) } => {
            assert_eq!(data, 4);
            assert_eq!(job_id, 17);
            assert!(tx.send(99).is_ok());
            assert_eq!(rx.try_recv().ok(), Some(99));
        }
        _ => panic!("must forward a job with a responder"),
    }
}

#[test]
fn answer_becomes_the_response_for_its_job() {
    let action = client_loop_step::<u32, u64>(ClientLoopEvent::Answered { job_id: 8, answer: Some(13) });
    assert!(matches!(action, ClientLoopAction::Respond(ClientSocketMessage::Response { data: 13, job_id: 8 })));
}

#[test]
fn dropped_answer_is_skipped() {
    let action = client_loop_step::<u32, u64>(ClientLoopEvent::Answered { job_id: 8, answer: None });
    assert!(matches!(action, ClientLoopAction::Continue));
}

#[test]
fn failures_stop_the_loop() {
    assert!(matches!(client_loop_step::<u32, u64>(ClientLoopEvent::ReceiveFailed), ClientLoopAction::Stop));
    assert!(matches!(client_loop_step::<u32, u64>(ClientLoopEvent::JobRejected), ClientLoopAction::Stop));
}

use ipc2::worker::ClientLoop;

#[test]
fn client_loop_awaits_the_answer_before_reading_again() {
    let mut lp = ClientLoop::new();
    let first = ClientLoopEvent::<u32, u64>::Received(ServerSocketMessage::Bidirectional { data: 1, job_id: 5 });
    assert!(lp.accepts(&first));
    let reply = match lp.step(first) {
        ClientLoopAction::Forward { job: Job::Bidirectional { tx, .. }, reply: Some((job_id, rx)) } => {
            assert_eq!(job_id, 5);
            assert!(tx.send(50).is_ok());
            rx
        }
        _ => panic!("must forward a job that expects an answer"),
    };
    let next = ClientLoopEvent::<u32, u64>::Received(ServerSocketMessage::Unidirectional { data: 2 });
    assert!(!lp.accepts(&next));
    let wrong = ClientLoopEvent::<u32, u64>::Answered { job_id: 6, answer: Some(1) };
    assert!(!lp.accepts(&wrong));
    let mut reply = reply;
    let answered = ClientLoopEvent::<u32, u64>::Answered { job_id: 5, answer: reply.try_recv().ok() };
    assert!(lp.accepts(&answered));
    assert!(matches!(lp.step(answered), ClientLoopAction::Respond(ClientSocketMessage::Response { data: 50, job_id: 5 })));
    assert!(lp.accepts(&next));
    assert!(matches!(lp.step(next), ClientLoopAction::Forward { job: Job::Unidirectional { data: 2 }, reply: None }));
}

#[test]
fn client_loop_stops_and_then_hears_nothing() {
    let mut lp = ClientLoop::new();
    let answer_first = ClientLoopEvent::<u32, u64>::Answered { job_id: 0, answer: None };
    assert!(!lp.accepts(&answer_first));
    assert!(matches!(lp.step(ClientLoopEvent::<u32, u64>::ReceiveFailed), ClientLoopAction::Stop));
    assert!(!lp.accepts(&ClientLoopEvent::<u32, u64>::ReceiveFailed));
    let mut other = ClientLoop::new();
    let job = ClientLoopEvent::<u32, u64>::Received(ServerSocketMessage::Bidirectional { data: 1, job_id: 9 });
    let _ = other.step(job);
    assert!(other.accepts(&ClientLoopEvent::<u32, u64>::JobRejected));
    assert!(matches!(other.step(ClientLoopEvent::<u32, u64>::JobRejected), ClientLoopAction::Stop));
}
