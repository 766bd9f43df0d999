use karo_bus::bus::{connect_response, register_response, Bus};
use karo_bus::errors::BusError;
use karo_bus::hub::{HubState, ServicePolicy};
use karo_bus::inspect::InspectData;
use karo_bus::messages::{Message, MessageBody, Response};
use karo_bus::monitor::{MessageDirection, Monitor};
use karo_bus::peer_connection::{call_response, InboundAction, PeerConnection};
use karo_bus::registry::DispatchOutcome;

#[test]
fn bus_mints_one_handler_number_per_method() {
    let mut bus = Bus::new(String::from("com.svc"));
    assert_eq!(bus.register_method(String::from("a")).unwrap(), 0);
    assert_eq!(bus.register_method(String::from("b")).unwrap(), 1);
    assert!(matches!(
        bus.register_method(String::from("a")),
        Err(BusError::AlreadyRegistered)
    ));
    assert_eq!(bus.register_method(String::from("c")).unwrap(), 2);
}

#[test]
fn bus_requests_carry_the_right_bodies() {
    let bus = Bus::new(String::from("com.svc"));
    let reg = bus.register_request(0);
    assert!(matches!(
        reg.body(),
        MessageBody::Register(n) if n == "com.svc"
    ));
    let conn = bus.connect_request(&String::from("com.other"), 1);
    assert_eq!(conn.seq(), 1);
    assert!(matches!(
        conn.body(),
        MessageBody::Connect(n) if n == "com.other"
    ));
}

#[test]
fn hub_responses_are_interpreted_exactly() {
    let good = Message::new(0, MessageBody::Response(Response::Success));
    assert!(register_response(&good).is_ok());
    assert!(connect_response(&good).is_ok());
    let taken = Message::new(
        0,
        MessageBody::Response(Response::Error(BusError::NameTaken)),
    );
    assert!(matches!(register_response(&taken), Err(BusError::NameTaken)));
    let denied = Message::new(
        0,
        MessageBody::Response(Response::Error(BusError::PermissionDenied)),
    );
    assert!(matches!(
        connect_response(&denied),
        Err(BusError::PermissionDenied)
    ));
    let odd = Message::new(0, MessageBody::Response(Response::Return(vec![])));
    assert!(matches!(register_response(&odd), Err(BusError::InvalidMessage)));
    assert!(matches!(connect_response(&odd), Err(BusError::InvalidMessage)));
}

#[test]
fn inspect_lists_everything_registered() {
    let mut bus = Bus::new(String::from("com.svc"));
    bus.register_method(String::from("m1")).unwrap();
    bus.register_method(String::from("m2")).unwrap();
    bus.register_signal(String::from("s1")).unwrap();
    bus.register_state(String::from("st1"), vec![0]).unwrap();
    let d = InspectData::of_registry(&bus.registry);
    assert_eq!(d.methods, vec![String::from("m1"), String::from("m2")]);
    assert_eq!(d.signals, vec![String::from("s1")]);
    assert_eq!(d.states, vec![String::from("st1")]);
    let empty = InspectData::new();
    assert!(empty.methods.is_empty() && empty.signals.is_empty() && empty.states.is_empty());
}

#[test]
fn monitor_reports_follow_the_direction() {
    let mut mon = Monitor::new(String::from("com.a"), String::from("com.b"));
    assert!(mon.message(&vec![1], MessageDirection::Outgoing).is_none());
    mon.set_monitor();
    let out = mon.message(&vec![1], MessageDirection::Outgoing).unwrap();
    assert_eq!((out.sender.as_str(), out.receiver.as_str()), ("com.a", "com.b"));
    assert_eq!(out.message, vec![1]);
    let inc = mon.message(&vec![2], MessageDirection::Incoming).unwrap();
    assert_eq!((inc.sender.as_str(), inc.receiver.as_str()), ("com.b", "com.a"));
    mon.on_send_failure();
    assert!(mon.message(&vec![3], MessageDirection::Outgoing).is_none());
}

/// The whole call path at the model level: two services registered with
/// the hub, one method registered, a brokered session, one call carried
/// as frames both ways.
#[test]
fn test_methods() {
    // hub side: both services register; the callee's policy admits the caller
    let mut hub = HubState::new();
    let callee_policy = ServicePolicy {
        exec_pattern: String::from("/**/*"),
        incoming_connections: vec![String::from("com.call_method")],
    };
    let caller_policy = ServicePolicy {
        exec_pattern: String::from("/**/*"),
        incoming_connections: Vec::new(),
    };
    let exe = String::from("/usr/bin/test");
    hub.handle_register(
        &String::from("com.register_method"),
        Some(&callee_policy),
        &exe,
        true,
    )
    .unwrap();
    hub.handle_register(
        &String::from("com.call_method"),
        Some(&caller_policy),
        &exe,
        true,
    )
    .unwrap();
    hub.handle_connect(
        &String::from("com.call_method"),
        &String::from("com.register_method"),
        Some(&callee_policy),
    )
    .unwrap();

    // callee side: a bus with one method whose handler formats its input
    let mut callee = Bus::new(String::from("com.register_method"));
    let handler = callee.register_method(String::from("method")).unwrap();

    // caller side: a running session and one submitted call
    let mut session = PeerConnection::new(
        String::from("com.call_method"),
        String::from("com.register_method"),
    );
    session.handshake_complete();
    let request = session
        .submit_call(&String::from("method"), vec![42])
        .unwrap();

    // an unknown method is answered with its exact error
    let bad = Message::new(
        77,
        MessageBody::MethodCall(
            String::from("com.register_method"),
            String::from("non_existing_method"),
            vec![42],
        ),
    );
    match callee.registry.dispatch(&bad, &String::from("com.call_method")) {
        DispatchOutcome::Reply(m) => {
            assert!(matches!(
                m.body(),
                MessageBody::Response(Response::Error(BusError::MethodNotFound))
            ));
        }
        _ => panic!("expected an error reply"),
    }

    // the real call reaches the handler with exactly the sent payload
    let (h, seq, params) = match callee
        .registry
        .dispatch(&request, &String::from("com.call_method"))
    {
        DispatchOutcome::Invoke {
            handler,
            seq,
            params,
        } => (handler, seq, params),
        _ => panic!("expected an invocation"),
    };
    assert_eq!(h, handler);
    assert_eq!(params, vec![42]);

    // the process runs the handler and the pump answers under the same seq
    let output = format!("Hello, {}", params[0]).into_bytes();
    let reply = Message::new_return(seq, output.clone());

    // back on the caller: the frame lands in the call slot, exactly once,
    // and the call yields the handler's output
    assert_eq!(
        session.on_inbound(&reply),
        InboundAction::DeliverCall(request.seq())
    );
    let returned = call_response(&reply).unwrap();
    assert_eq!(returned, String::from("Hello, 42").into_bytes());
}

/// Losing the peer: every outstanding call resolves with `Disconnected`
/// and every subscription ends.
#[test]
fn peer_loss_completes_calls_and_subscriptions() {
    let mut session = PeerConnection::new(String::from("com.b"), String::from("com.a"));
    session.handshake_complete();
    let call = session.submit_call(&String::from("m"), vec![]).unwrap();
    let sub = session.submit_subscribe(&String::from("sig")).unwrap();
    // the transport notices the dead socket and closes the session
    let completed = session.close();
    assert_eq!(completed, vec![call.seq(), sub.seq()]);
    assert!(session.drain_complete());
    // everything later is refused as disconnected
    assert!(matches!(
        session.submit_call(&String::from("m"), vec![]),
        Err(BusError::Disconnected)
    ));
}
