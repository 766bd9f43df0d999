use karo_bus::errors::BusError;
use karo_bus::hub::{broker_messages, glob_match, HubState, ServicePolicy};
use karo_bus::messages::{MessageBody, Response};

fn open_policy() -> ServicePolicy {
    ServicePolicy {
        exec_pattern: String::from("*"),
        incoming_connections: Vec::new(),
    }
}

fn policy_admitting(names: &[&str]) -> ServicePolicy {
    ServicePolicy {
        exec_pattern: String::from("*"),
        incoming_connections: names.iter().map(|n| String::from(*n)).collect(),
    }
}

fn exe() -> String {
    String::from("/usr/bin/service")
}

#[test]
fn registration_needs_a_policy_file() {
    let mut hub = HubState::new();
    assert!(matches!(
        hub.handle_register(&String::from("com.a"), None, &exe(), true),
        Err(BusError::ServiceNotAllowed)
    ));
}

#[test]
fn registration_needs_a_matching_executable() {
    let mut hub = HubState::new();
    let strict = ServicePolicy {
        exec_pattern: String::from("/opt/*"),
        incoming_connections: Vec::new(),
    };
    assert!(matches!(
        hub.handle_register(&String::from("com.a"), Some(&strict), &exe(), true),
        Err(BusError::ServiceNotAllowed)
    ));
    // without peer credentials, exec matching degrades to always-match
    assert!(hub
        .handle_register(&String::from("com.a"), Some(&strict), &exe(), false)
        .is_ok());
}

#[test]
fn name_is_taken_exactly_once() {
    let mut hub = HubState::new();
    let pol = open_policy();
    let first = hub.handle_register(&String::from("x"), Some(&pol), &exe(), true);
    let second = hub.handle_register(&String::from("x"), Some(&pol), &exe(), true);
    assert!(first.is_ok());
    assert!(matches!(second, Err(BusError::NameTaken)));
}

#[test]
fn connect_to_an_unregistered_service_fails() {
    let hub = HubState::new();
    assert!(matches!(
        hub.handle_connect(
            &String::from("com.b"),
            &String::from("com.a"),
            Some(&open_policy())
        ),
        Err(BusError::ServiceNotFound)
    ));
}

#[test]
fn connect_needs_to_be_on_the_allow_list() {
    let mut hub = HubState::new();
    let pol = open_policy();
    hub.handle_register(&String::from("com.a"), Some(&pol), &exe(), true)
        .unwrap();
    // the target's policy lists nobody: permission denied
    assert!(matches!(
        hub.handle_connect(
            &String::from("com.b"),
            &String::from("com.a"),
            Some(&open_policy())
        ),
        Err(BusError::PermissionDenied)
    ));
    // a missing policy file denies too
    assert!(matches!(
        hub.handle_connect(&String::from("com.b"), &String::from("com.a"), None),
        Err(BusError::PermissionDenied)
    ));
    // listed requesters are introduced
    assert!(hub
        .handle_connect(
            &String::from("com.b"),
            &String::from("com.a"),
            Some(&policy_admitting(&["com.c", "com.b"]))
        )
        .is_ok());
}

#[test]
fn disconnect_frees_the_name() {
    let mut hub = HubState::new();
    let pol = open_policy();
    hub.handle_register(&String::from("com.a"), Some(&pol), &exe(), true)
        .unwrap();
    hub.handle_disconnect(&String::from("com.a"));
    assert!(matches!(
        hub.handle_connect(
            &String::from("com.b"),
            &String::from("com.a"),
            Some(&policy_admitting(&["com.b"]))
        ),
        Err(BusError::ServiceNotFound)
    ));
    // and the name can be registered again
    assert!(hub
        .handle_register(&String::from("com.a"), Some(&pol), &exe(), true)
        .is_ok());
}

#[test]
fn broker_sends_success_and_a_synthesized_connect() {
    let (to_requester, to_target) = broker_messages(&String::from("com.b"), 12, 0);
    assert_eq!(to_requester.seq(), 12);
    assert!(matches!(
        to_requester.body(),
        MessageBody::Response(Response::Success)
    ));
    assert_eq!(to_target.seq(), 0);
    assert!(matches!(
        to_target.body(),
        MessageBody::Connect(requester) if requester == "com.b"
    ));
}

#[test]
fn glob_matches_paths() {
    let path = String::from("/usr/local/bin/service");
    assert!(glob_match(&String::from("/**/*"), &path));
    assert!(glob_match(&String::from("*"), &path));
    assert!(glob_match(&String::from("/usr/*/bin/*"), &path));
    assert!(glob_match(&String::from("/usr/local/bin/servic?"), &path));
    assert!(!glob_match(&String::from("/opt/*"), &path));
    assert!(!glob_match(&String::from("/usr/local/bin/serv?"), &path));
    assert!(glob_match(&String::from(""), &String::from("")));
    assert!(!glob_match(&String::from(""), &String::from("a")));
    assert!(glob_match(&String::from("abc"), &String::from("abc")));
    assert!(!glob_match(&String::from("abc"), &String::from("abd")));
}
