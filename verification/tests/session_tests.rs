use karo_bus::errors::BusError;
use karo_bus::messages::{Message, MessageBody, Response};
use karo_bus::peer_connection::{
    call_response, make_subscription_call, push_payload, subscription_response, watch_response,
    InboundAction,
    PeerConnection, Phase,
};

fn running_session() -> PeerConnection {
    let mut c = PeerConnection::new(String::from("com.self"), String::from("com.peer"));
    c.handshake_complete();
    c
}

#[test]
fn fresh_seqs_strictly_increase() {
    let mut c = running_session();
    let s1 = c.fresh_seq();
    let s2 = c.fresh_seq();
    let s3 = c.fresh_seq();
    assert!(s1 < s2 && s2 < s3);
    assert_eq!((s1, s2, s3), (0, 1, 2));
}

#[test]
fn submitted_call_builds_the_right_frame() {
    let mut c = running_session();
    let m = c
        .submit_call(&String::from("m"), vec![42])
        .expect("submit on a running session succeeds");
    assert_eq!(m.seq(), 0);
    match m.body() {
        MessageBody::MethodCall(target, method, p) => {
            assert_eq!(target, "com.peer");
            assert_eq!(method, "m");
            assert_eq!(p, &vec![42]);
        }
        _ => panic!("wrong frame for a call"),
    }
}

#[test]
fn call_correlation_delivers_exactly_once() {
    let mut c = running_session();
    let m = c.submit_call(&String::from("m"), vec![]).unwrap();
    let response = Message::new(m.seq(), MessageBody::Response(Response::Success));
    // the first frame under that seq goes to the call slot, closing it
    assert_eq!(c.on_inbound(&response), InboundAction::DeliverCall(m.seq()));
    // a second frame under the same seq is nobody's response: it dispatches
    assert_eq!(c.on_inbound(&response), InboundAction::Dispatch);
}

#[test]
fn subscription_slot_survives_pushes() {
    let mut c = running_session();
    let m = c.submit_subscribe(&String::from("sig")).unwrap();
    let push = Message::new(m.seq(), MessageBody::Response(Response::Signal(vec![1])));
    assert_eq!(c.on_inbound(&push), InboundAction::DeliverPush(m.seq()));
    assert_eq!(c.on_inbound(&push), InboundAction::DeliverPush(m.seq()));
}

#[test]
fn unknown_seq_dispatches() {
    let mut c = running_session();
    let req = Message::new(7, MessageBody::Subscribe(String::from("sig")));
    assert_eq!(c.on_inbound(&req), InboundAction::Dispatch);
}

#[test]
fn close_completes_every_outstanding_slot() {
    let mut c = running_session();
    let a = c.submit_call(&String::from("one"), vec![]).unwrap();
    let b = c.submit_subscribe(&String::from("sig")).unwrap();
    let d = c.submit_watch(&String::from("st")).unwrap();
    let completed = c.close();
    assert_eq!(completed, vec![a.seq(), b.seq(), d.seq()]);
    assert!(c.drain_complete());
}

#[test]
fn submit_after_close_is_disconnected() {
    let mut c = running_session();
    c.close();
    assert!(matches!(
        c.submit_call(&String::from("m"), vec![]),
        Err(BusError::Disconnected)
    ));
    assert!(matches!(
        c.submit_subscribe(&String::from("s")),
        Err(BusError::Disconnected)
    ));
    assert!(matches!(
        c.submit_watch(&String::from("s")),
        Err(BusError::Disconnected)
    ));
}

#[test]
fn shutdown_drains_then_close() {
    let mut c = running_session();
    c.on_shutdown();
    // draining refuses new work
    assert!(matches!(
        c.submit_call(&String::from("m"), vec![]),
        Err(BusError::Disconnected)
    ));
    let completed = c.close();
    assert!(completed.is_empty());
}

#[test]
fn handshake_is_required_before_traffic() {
    let mut c = PeerConnection::new(String::from("a"), String::from("b"));
    assert!(matches!(
        c.submit_call(&String::from("m"), vec![]),
        Err(BusError::Disconnected)
    ));
    c.handshake_complete();
    assert!(c.submit_call(&String::from("m"), vec![]).is_ok());
}

#[test]
fn call_response_returns_the_payload() {
    let m = Message::new(3, MessageBody::Response(Response::Return(vec![4, 5])));
    assert_eq!(call_response(&m).unwrap(), vec![4, 5]);
}

#[test]
fn call_response_hands_errors_through() {
    let m = Message::new(
        3,
        MessageBody::Response(Response::Error(BusError::MethodNotFound)),
    );
    assert!(matches!(call_response(&m), Err(BusError::MethodNotFound)));
    let bad = Message::new(3, MessageBody::Response(Response::Success));
    assert!(matches!(call_response(&bad), Err(BusError::InvalidMessage)));
}

#[test]
fn subscription_response_wants_plain_success() {
    let good = Message::new(3, MessageBody::Response(Response::Success));
    assert!(subscription_response(&good).is_ok());
    let err = Message::new(
        3,
        MessageBody::Response(Response::Error(BusError::SignalNotFound)),
    );
    assert!(matches!(
        subscription_response(&err),
        Err(BusError::SignalNotFound)
    ));
    let bad = Message::new(3, MessageBody::Response(Response::Return(vec![])));
    assert!(matches!(
        subscription_response(&bad),
        Err(BusError::InvalidMessage)
    ));
}

#[test]
fn watch_response_wants_the_initial_value() {
    let good = Message::new(3, MessageBody::Response(Response::StateChanged(vec![5])));
    assert_eq!(watch_response(&good).unwrap(), vec![5]);
    let err = Message::new(
        3,
        MessageBody::Response(Response::Error(BusError::StateNotFound)),
    );
    assert!(matches!(watch_response(&err), Err(BusError::StateNotFound)));
    let bad = Message::new(3, MessageBody::Response(Response::Success));
    assert!(matches!(watch_response(&bad), Err(BusError::InvalidMessage)));
}

#[test]
fn pushes_carry_signal_and_state_payloads() {
    let sig = Message::new(3, MessageBody::Response(Response::Signal(vec![1])));
    assert_eq!(push_payload(&sig).unwrap(), vec![1]);
    let st = Message::new(3, MessageBody::Response(Response::StateChanged(vec![2])));
    assert_eq!(push_payload(&st).unwrap(), vec![2]);
    let bad = Message::new(3, MessageBody::Response(Response::Success));
    assert!(matches!(push_payload(&bad), Err(BusError::InvalidMessage)));
}

#[test]
fn update_seq_retags_a_frame() {
    let mut m = Message::new(3, MessageBody::Response(Response::Signal(vec![9])));
    m.update_seq(100);
    assert_eq!(m.seq(), 100);
    assert!(matches!(
        m.body(),
        MessageBody::Response(Response::Signal(p)) if p == &vec![9]
    ));
}

#[test]
fn phases_follow_the_lifecycle() {
    let mut c = PeerConnection::new(String::from("a"), String::from("b"));
    assert_eq!(c.phase, Phase::Handshaking);
    c.handshake_complete();
    assert_eq!(c.phase, Phase::Running);
    c.on_shutdown();
    assert_eq!(c.phase, Phase::Draining);
    c.close();
    assert_eq!(c.phase, Phase::Closed);
    c.on_shutdown();
    assert_eq!(c.phase, Phase::Closed);
}

#[test]
fn subscription_first_frame_splits_errors_from_the_rest() {
    let err = Message::new(
        4,
        MessageBody::Response(Response::Error(BusError::SignalNotFound)),
    );
    assert!(matches!(
        make_subscription_call(err),
        Err(BusError::SignalNotFound)
    ));
    let ack = Message::new(4, MessageBody::Response(Response::Success));
    let passed = make_subscription_call(ack).unwrap();
    assert_eq!(passed.seq(), 4);
    assert!(matches!(passed.body(), MessageBody::Response(Response::Success)));
}
