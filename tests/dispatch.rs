use rust_chat_server::commands::Commands;
use rust_chat_server::delivery::{Delivery, DeliveryStep, DELIVERY_ATTEMPTS};
use rust_chat_server::kind::CommandKind;
use rust_chat_server::params::Params;
use rust_chat_server::server::{identity_params, Server};
use rust_chat_server::session::{Client, ServerMessages};

fn params(pairs: &[(&str, &str)]) -> Params {
    let mut p = Params::new();
    for (k, v) in pairs {
        p.insert(k.to_string(), v.to_string());
    }
    p
}

fn connect(server: &mut Server, uuid: &str, now: u64) {
    let frame = format!("!connect: uuid:{} name:alice host:127.0.0.1", uuid);
    let c = Commands::from_str(&frame).unwrap();
    let out = server.execute(&c, now);
    assert!(out.reply.is_none());
    assert_eq!(out.registered, Some(uuid.to_string()));
}

fn index_of(server: &Server, uuid: &str) -> usize {
    server.find_client(&uuid.to_string()).unwrap()
}

#[test]
fn server_config_getters() {
    let server = Server::new("test", "0.0.0.0:6000", "someone");
    assert_eq!(server.get_name(), "test");
    assert_eq!(server.get_address(), "0.0.0.0:6000");
    assert_eq!(server.get_author(), "someone");
    assert_eq!(server.client_count(), 0);
    assert!(server.get_connected_clients().is_empty());
}

#[test]
fn info_on_server_replies_name_and_owner() {
    let mut server = Server::new("test", "0.0.0.0:6000", "someone");
    let out = server.execute(&Commands::Info, 0);
    let expected = Commands::Success(Some(params(&[("name", "test"), ("owner", "someone")])));
    assert!(out.reply.unwrap() == expected);
    assert!(out.registered.is_none());
}

#[test]
fn connect_missing_uuid_is_error_without_mutation() {
    let mut server = Server::new("s", "a", "o");
    let c = Commands::from_str("!connect: name:alice host:127.0.0.1").unwrap();
    let out = server.execute(&c, 1);
    assert!(out.reply.unwrap() == Commands::Error);
    assert!(out.registered.is_none());
    assert_eq!(server.client_count(), 0);
}

#[test]
fn connect_without_params_is_error() {
    let mut server = Server::new("s", "a", "o");
    let out = server.execute(&Commands::Connect(None), 1);
    assert!(out.reply.unwrap() == Commands::Error);
    assert_eq!(server.client_count(), 0);
}

#[test]
fn connect_into_empty_registry() {
    let mut server = Server::new("s", "a", "o");
    connect(&mut server, "abc", 7);
    assert_eq!(server.client_count(), 1);
    assert!(server.contains_client(&"abc".to_string()));
    let c = &server.get_connected_clients()[0];
    assert_eq!(c.get_uuid(), "abc");
    assert_eq!(c.get_username(), "alice");
    assert_eq!(c.get_address(), "127.0.0.1");
    assert_eq!(c.get_last_heartbeat(), 7);
    assert_eq!(c.pending_len(), 0);
    assert!(c.is_connected());
}

#[test]
fn connect_fans_out_to_existing_sessions() {
    let mut server = Server::new("s", "a", "o");
    connect(&mut server, "one", 1);
    connect(&mut server, "two", 2);
    connect(&mut server, "abc", 3);
    assert_eq!(server.client_count(), 3);
    let expected = Commands::Client(Some(params(&[("uuid", "abc"), ("name", "alice"), ("host", "127.0.0.1")])));
    let one = index_of(&server, "one");
    let two = index_of(&server, "two");
    let abc = index_of(&server, "abc");
    // "one" saw "two" join, then "abc"
    assert_eq!(server.get_connected_clients()[one].pending_len(), 2);
    assert_eq!(server.get_connected_clients()[two].pending_len(), 1);
    assert_eq!(server.get_connected_clients()[abc].pending_len(), 0);
    let first = server.next_notification_for(one).unwrap();
    assert_eq!(first.kind(), CommandKind::Client);
    let second = server.next_notification_for(one).unwrap();
    assert!(second == expected);
    assert!(server.next_notification_for(one).is_none());
    assert!(server.next_notification_for(two).unwrap() == expected);
}

#[test]
fn connect_duplicate_uuid_is_error() {
    let mut server = Server::new("s", "a", "o");
    connect(&mut server, "abc", 1);
    let c = Commands::from_str("!connect: uuid:abc name:bob host:h").unwrap();
    let out = server.execute(&c, 2);
    assert!(out.reply.unwrap() == Commands::Error);
    assert_eq!(server.client_count(), 1);
    assert_eq!(server.get_connected_clients()[0].get_username(), "alice");
}

#[test]
fn commands_invalid_for_server_are_errors() {
    let mut server = Server::new("s", "a", "o");
    for c in [Commands::Request, Commands::HeartBeat(None), Commands::Disconnect, Commands::Success(None), Commands::Error] {
        let out = server.execute(&c, 0);
        assert!(out.reply.unwrap() == Commands::Error);
    }
}

#[test]
fn heartbeat_updates_timestamp() {
    let mut s = Client::new("u1", "alice", "h", 5);
    let out = s.execute(&Commands::from_str("!heartbeat:").unwrap(), 9);
    assert_eq!(s.get_last_heartbeat(), 9);
    assert!(out.reply.as_ref().unwrap() == &Commands::Success(None));
    assert_eq!(out.reply.unwrap().to_string(), "!success:");
    assert!(out.control.is_none());
    assert!(!out.close);
}

#[test]
fn disconnect_is_terminal() {
    let mut s = Client::new("u1", "alice", "h", 5);
    let out = s.execute(&Commands::from_str("!disconnect:").unwrap(), 6);
    assert!(out.close);
    assert!(out.reply.is_none());
    assert!(!s.is_connected());
    match out.control {
        Some(ServerMessages::Disconnect(u)) => assert_eq!(u, "u1"),
        other => panic!("unexpected {:?}", other),
    }
}

#[test]
fn client_update_replies_then_requests_replay() {
    let mut s = Client::new("u1", "alice", "h", 5);
    let out = s.execute(&Commands::ClientUpdate, 6);
    assert!(out.reply.unwrap() == Commands::Success(None));
    match out.control {
        Some(ServerMessages::RequestUpdate(u)) => assert_eq!(u, "u1"),
        other => panic!("unexpected {:?}", other),
    }
}

#[test]
fn client_info_posts_lookup() {
    let mut s = Client::new("u1", "alice", "h", 5);
    let out = s.execute(&Commands::from_str("!clientInfo: uuid:u2").unwrap(), 6);
    assert!(out.reply.is_none());
    match out.control {
        Some(ServerMessages::RequestInfo(u, r)) => {
            assert_eq!(u, "u2");
            assert_eq!(r, "u1");
        },
        other => panic!("unexpected {:?}", other),
    }
}

#[test]
fn client_info_without_uuid_is_error() {
    let mut s = Client::new("u1", "alice", "h", 5);
    let out = s.execute(&Commands::from_str("!clientInfo: name:x").unwrap(), 6);
    assert!(out.reply.unwrap() == Commands::Error);
    assert!(out.control.is_none());
    let out = s.execute(&Commands::ClientInfo(None), 6);
    assert!(out.reply.unwrap() == Commands::Error);
}

#[test]
fn commands_invalid_for_session_are_errors() {
    let mut s = Client::new("u1", "alice", "h", 5);
    for c in [Commands::Request, Commands::Info, Commands::Connect(None), Commands::Success(None)] {
        let out = s.execute(&c, 6);
        assert!(out.reply.unwrap() == Commands::Error);
        assert!(out.control.is_none());
        assert!(!out.close);
    }
    assert_eq!(s.get_last_heartbeat(), 5);
    assert!(s.is_connected());
}

#[test]
fn session_queue_is_fifo() {
    let mut s = Client::new("u1", "alice", "h", 5);
    s.push_notification(Commands::Request);
    s.push_notification(Commands::Info);
    assert_eq!(s.pending_len(), 2);
    assert!(s.next_notification().unwrap() == Commands::Request);
    assert!(s.next_notification().unwrap() == Commands::Info);
    assert!(s.next_notification().is_none());
    s.disconnect();
    assert!(!s.is_connected());
}

#[test]
fn server_disconnect_message_removes_and_announces() {
    let mut server = Server::new("s", "a", "o");
    connect(&mut server, "one", 1);
    connect(&mut server, "two", 2);
    let one = index_of(&server, "one");
    let _ = server.next_notification_for(one);
    let two = index_of(&server, "two");
    let out = server.execute_for(two, &Commands::Disconnect, 3);
    let msg = out.control.unwrap();
    let done = server.handle_message(&msg);
    assert!(done.running);
    assert_eq!(server.client_count(), 1);
    assert!(!server.contains_client(&"two".to_string()));
    let one = index_of(&server, "one");
    let note = server.next_notification_for(one).unwrap();
    assert!(note == Commands::ClientRemove(Some(params(&[("uuid", "two")]))));
}

#[test]
fn server_request_info() {
    let mut server = Server::new("s", "a", "o");
    connect(&mut server, "one", 1);
    connect(&mut server, "two", 2);
    let out = server.handle_message(&ServerMessages::RequestInfo("two".to_string(), "one".to_string()));
    assert_eq!(out.target, Some("one".to_string()));
    let expected = Commands::Success(Some(identity_params("two".to_string(), "alice".to_string(), "127.0.0.1".to_string())));
    assert!(out.reply.unwrap() == expected);
    let out = server.handle_message(&ServerMessages::RequestInfo("zzz".to_string(), "one".to_string()));
    assert!(out.reply.unwrap() == Commands::Success(None));
}

#[test]
fn server_request_update_replays_others() {
    let mut server = Server::new("s", "a", "o");
    connect(&mut server, "one", 1);
    connect(&mut server, "two", 2);
    connect(&mut server, "three", 3);
    let two = index_of(&server, "two");
    while server.next_notification_for(two).is_some() {}
    let out = server.handle_message(&ServerMessages::RequestUpdate("two".to_string()));
    assert!(out.running && out.reply.is_none());
    let two = index_of(&server, "two");
    assert_eq!(server.get_connected_clients()[two].pending_len(), 2);
    let a = server.next_notification_for(two).unwrap();
    let b = server.next_notification_for(two).unwrap();
    assert!(a == Commands::Client(Some(params(&[("uuid", "one"), ("name", "alice"), ("host", "127.0.0.1")]))));
    assert!(b == Commands::Client(Some(params(&[("uuid", "three"), ("name", "alice"), ("host", "127.0.0.1")]))));
}

#[test]
fn server_shutdown_stops_and_drops_sessions() {
    let mut server = Server::new("s", "a", "o");
    connect(&mut server, "one", 1);
    let out = server.handle_message(&ServerMessages::Shutdown);
    assert!(!out.running);
    assert_eq!(server.client_count(), 0);
}

#[test]
fn server_heartbeat_for_session() {
    let mut server = Server::new("s", "a", "o");
    connect(&mut server, "one", 1);
    let out = server.execute_for(0, &Commands::HeartBeat(None), 40);
    assert!(out.reply.unwrap() == Commands::Success(None));
    assert_eq!(server.get_connected_clients()[0].get_last_heartbeat(), 40);
    assert_eq!(server.client_uuid(0), "one");
}

#[test]
fn remove_and_update_all() {
    let mut server = Server::new("s", "a", "o");
    connect(&mut server, "one", 1);
    connect(&mut server, "two", 2);
    server.remove_client(&"one".to_string());
    server.remove_client(&"missing".to_string());
    assert_eq!(server.client_count(), 1);
    server.update_all_clients(&Commands::Request);
    assert_eq!(server.get_connected_clients()[0].pending_len(), 1);
}

#[test]
fn retry_exhaustion() {
    let note = Commands::Client(Some(params(&[("uuid", "abc")])));
    let mut d = Delivery::new(note.clone());
    let mut sent = vec![d.frame()];
    let mut last = None;
    while !d.is_finished() {
        match d.on_reply(&Commands::Error) {
            DeliveryStep::Send(f) => sent.push(f),
            DeliveryStep::GiveUp(e) => last = Some(e),
            DeliveryStep::Done => {},
        }
    }
    assert_eq!(sent.len(), DELIVERY_ATTEMPTS as usize);
    assert_eq!(sent.len(), 3);
    assert!(sent.iter().all(|f| *f == note));
    assert!(last.unwrap() == Commands::Error);
}

#[test]
fn delivery_acknowledged() {
    let note = Commands::ClientRemove(Some(params(&[("uuid", "abc")])));
    let mut d = Delivery::new(note.clone());
    assert!(d.frame() == note);
    match d.on_reply(&Commands::Error) {
        DeliveryStep::Send(f) => assert!(f == note),
        _ => panic!("expected a resend"),
    }
    assert!(matches!(d.on_reply(&Commands::Success(None)), DeliveryStep::Done));
    assert!(d.is_finished());
    assert!(matches!(d.on_reply(&Commands::Error), DeliveryStep::Done));
}
