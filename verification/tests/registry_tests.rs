use karo_bus::errors::BusError;
use karo_bus::messages::{Message, MessageBody, Response};
use karo_bus::registry::{DispatchOutcome, ServiceRegistry};

fn reg_with_signal(name: &str) -> ServiceRegistry {
    let mut r = ServiceRegistry::new();
    r.register_signal(String::from(name)).unwrap();
    r
}

#[test]
fn double_registration_is_rejected_per_category() {
    let mut r = ServiceRegistry::new();
    assert!(r.register_method(String::from("x"), 0).is_ok());
    assert!(matches!(
        r.register_method(String::from("x"), 1),
        Err(BusError::AlreadyRegistered)
    ));
    assert!(r.register_signal(String::from("x")).is_ok());
    assert!(matches!(
        r.register_signal(String::from("x")),
        Err(BusError::AlreadyRegistered)
    ));
    assert!(r.register_state(String::from("x"), vec![]).is_ok());
    assert!(matches!(
        r.register_state(String::from("x"), vec![]),
        Err(BusError::AlreadyRegistered)
    ));
}

#[test]
fn lookup_finds_the_registered_handler() {
    let mut r = ServiceRegistry::new();
    r.register_method(String::from("a"), 7).unwrap();
    r.register_method(String::from("b"), 8).unwrap();
    assert_eq!(r.lookup_method(&String::from("a")), Some(7));
    assert_eq!(r.lookup_method(&String::from("b")), Some(8));
    assert_eq!(r.lookup_method(&String::from("c")), None);
}

#[test]
fn emission_reaches_subscribers_in_order() {
    let mut r = reg_with_signal("sig");
    r.subscribe_signal(&String::from("sig"), &String::from("com.a"), 10)
        .unwrap();
    r.subscribe_signal(&String::from("sig"), &String::from("com.b"), 20)
        .unwrap();
    let frames = r.emit_signal(&String::from("sig"), &vec![1]).unwrap();
    assert_eq!(frames.len(), 2);
    assert_eq!(frames[0].0, "com.a");
    assert_eq!(frames[0].1.seq(), 10);
    assert_eq!(frames[1].0, "com.b");
    assert_eq!(frames[1].1.seq(), 20);
    for (_, m) in &frames {
        assert!(matches!(
            m.body(),
            MessageBody::Response(Response::Signal(p)) if p == &vec![1]
        ));
    }
}

#[test]
fn back_to_back_emissions_stay_in_order() {
    let mut r = reg_with_signal("sig");
    r.subscribe_signal(&String::from("sig"), &String::from("com.b"), 5)
        .unwrap();
    let mut seen = Vec::new();
    for v in [1u8, 2, 3] {
        let frames = r.emit_signal(&String::from("sig"), &vec![v]).unwrap();
        assert_eq!(frames.len(), 1);
        match frames[0].1.body() {
            MessageBody::Response(Response::Signal(p)) => seen.push(p[0]),
            _ => panic!("expected a signal push"),
        }
    }
    assert_eq!(seen, vec![1, 2, 3]);
}

#[test]
fn emitting_an_unknown_signal_fails() {
    let r = ServiceRegistry::new();
    assert!(matches!(
        r.emit_signal(&String::from("nope"), &vec![]),
        Err(BusError::SignalNotFound)
    ));
}

#[test]
fn state_reads_back_what_was_set() {
    let mut r = ServiceRegistry::new();
    r.register_state(String::from("st"), vec![0]).unwrap();
    assert_eq!(r.get_state(&String::from("st")).unwrap(), vec![0]);
    r.set_state(&String::from("st"), vec![9, 9]).unwrap();
    assert_eq!(r.get_state(&String::from("st")).unwrap(), vec![9, 9]);
    assert!(matches!(
        r.get_state(&String::from("other")),
        Err(BusError::StateNotFound)
    ));
    assert!(matches!(
        r.set_state(&String::from("other"), vec![]),
        Err(BusError::StateNotFound)
    ));
}

#[test]
fn watch_returns_the_value_set_before_it() {
    let mut r = ServiceRegistry::new();
    r.register_state(String::from("st"), vec![0]).unwrap();
    r.set_state(&String::from("st"), vec![5]).unwrap();
    let initial = r
        .watch_state(&String::from("st"), &String::from("com.b"), 77)
        .unwrap();
    assert_eq!(initial, vec![5]);
}

#[test]
fn set_state_pushes_to_every_watcher() {
    let mut r = ServiceRegistry::new();
    r.register_state(String::from("st"), vec![0]).unwrap();
    r.watch_state(&String::from("st"), &String::from("com.a"), 1)
        .unwrap();
    r.watch_state(&String::from("st"), &String::from("com.b"), 2)
        .unwrap();
    let frames = r.set_state(&String::from("st"), vec![7]).unwrap();
    assert_eq!(frames.len(), 2);
    assert_eq!((frames[0].0.as_str(), frames[0].1.seq()), ("com.a", 1));
    assert_eq!((frames[1].0.as_str(), frames[1].1.seq()), ("com.b", 2));
    for (_, m) in &frames {
        assert!(matches!(
            m.body(),
            MessageBody::Response(Response::StateChanged(p)) if p == &vec![7]
        ));
    }
}

#[test]
fn dispatch_invokes_a_registered_method() {
    let mut r = ServiceRegistry::new();
    r.register_method(String::from("m"), 3).unwrap();
    let call = Message::new(
        50,
        MessageBody::MethodCall(String::from("com.self"), String::from("m"), vec![8]),
    );
    match r.dispatch(&call, &String::from("com.peer")) {
        DispatchOutcome::Invoke {
            handler,
            seq,
            params,
        } => {
            assert_eq!(handler, 3);
            assert_eq!(seq, 50);
            assert_eq!(params, vec![8]);
        }
        _ => panic!("expected an invocation"),
    }
}

#[test]
fn dispatch_answers_unknown_method_with_its_error() {
    let mut r = ServiceRegistry::new();
    let call = Message::new(
        50,
        MessageBody::MethodCall(String::from("com.self"), String::from("nope"), vec![]),
    );
    match r.dispatch(&call, &String::from("com.peer")) {
        DispatchOutcome::Reply(m) => {
            assert_eq!(m.seq(), 50);
            assert!(matches!(
                m.body(),
                MessageBody::Response(Response::Error(BusError::MethodNotFound))
            ));
        }
        _ => panic!("expected an error reply"),
    }
}

#[test]
fn dispatch_acknowledges_a_subscription() {
    let mut r = reg_with_signal("sig");
    let sub = Message::new(9, MessageBody::Subscribe(String::from("sig")));
    match r.dispatch(&sub, &String::from("com.peer")) {
        DispatchOutcome::Reply(m) => {
            assert_eq!(m.seq(), 9);
            assert!(matches!(m.body(), MessageBody::Response(Response::Success)));
        }
        _ => panic!("expected an acknowledgement"),
    }
    // the subscription is live: an emission now reaches the peer under seq 9
    let frames = r.emit_signal(&String::from("sig"), &vec![1]).unwrap();
    assert_eq!(frames.len(), 1);
    assert_eq!((frames[0].0.as_str(), frames[0].1.seq()), ("com.peer", 9));
}

#[test]
fn dispatch_answers_a_watch_with_the_cached_value() {
    let mut r = ServiceRegistry::new();
    r.register_state(String::from("st"), vec![4]).unwrap();
    let watch = Message::new(11, MessageBody::Watch(String::from("st")));
    match r.dispatch(&watch, &String::from("com.peer")) {
        DispatchOutcome::Reply(m) => {
            assert_eq!(m.seq(), 11);
            assert!(matches!(
                m.body(),
                MessageBody::Response(Response::StateChanged(p)) if p == &vec![4]
            ));
        }
        _ => panic!("expected the initial value"),
    }
}

#[test]
fn dispatch_refuses_what_does_not_belong_on_a_peer_stream() {
    let mut r = ServiceRegistry::new();
    let register = Message::new(1, MessageBody::Register(String::from("x")));
    match r.dispatch(&register, &String::from("com.peer")) {
        DispatchOutcome::Reply(m) => {
            assert!(matches!(
                m.body(),
                MessageBody::Response(Response::Error(BusError::InvalidMessage))
            ));
        }
        _ => panic!("expected an error reply"),
    }
    let shutdown = Message::new(
        0,
        MessageBody::Response(Response::Shutdown(String::from("com.peer"))),
    );
    assert!(matches!(
        r.dispatch(&shutdown, &String::from("com.peer")),
        DispatchOutcome::ShutdownPeer
    ));
}

#[test]
fn a_dead_peer_loses_its_subscriptions() {
    let mut r = reg_with_signal("sig");
    r.register_state(String::from("st"), vec![0]).unwrap();
    r.subscribe_signal(&String::from("sig"), &String::from("com.dead"), 1)
        .unwrap();
    r.subscribe_signal(&String::from("sig"), &String::from("com.alive"), 2)
        .unwrap();
    r.watch_state(&String::from("st"), &String::from("com.dead"), 3)
        .unwrap();
    r.remove_peer(&String::from("com.dead"));
    let frames = r.emit_signal(&String::from("sig"), &vec![1]).unwrap();
    assert_eq!(frames.len(), 1);
    assert_eq!(frames[0].0, "com.alive");
    let frames = r.set_state(&String::from("st"), vec![1]).unwrap();
    assert!(frames.is_empty());
    // the cached value survives the cancellation
    assert_eq!(r.get_state(&String::from("st")).unwrap(), vec![1]);
}
