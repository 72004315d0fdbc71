use teleia::ws::{Client, Message, ReadAction, ReadOutcome, Server, WriteOutcome, ACCEPT_KEY};

#[test]
fn failing_client_is_dropped_alone() {
    let mut server = Server::new();
    let a = server.accept().unwrap();
    let b = server.accept().unwrap();
    assert_eq!((a, b), (ACCEPT_KEY + 1, ACCEPT_KEY + 2));
    assert!(matches!(server.on_read(a, ReadOutcome::Failed), ReadAction::Disconnect));
    assert_eq!(server.clients(), vec![b]);
    assert!(!server.is_connected(a));
    assert!(server.send(b, Message::Text("still here".to_string())));
    match server.next_outgoing() {
        Some((id, Message::Text(t))) => {
            assert_eq!(id, b);
            assert_eq!(t, "still here");
        }
        _ => panic!("expected a queued message"),
    }
    assert!(!server.send(a, Message::Binary(vec![1])));
    assert!(server.next_outgoing().is_none());
}

#[test]
fn ids_are_never_reused() {
    let mut server = Server::new();
    let a = server.accept().unwrap();
    server.disconnect(a);
    let b = server.accept().unwrap();
    assert_eq!(b, a + 1);
}

#[test]
fn messages_reach_the_application_in_order() {
    let mut server = Server::new();
    let a = server.accept().unwrap();
    let b = server.accept().unwrap();
    assert!(matches!(server.on_read(b, ReadOutcome::Received(Message::Binary(vec![2]))), ReadAction::Delivered));
    assert!(matches!(server.on_read(a, ReadOutcome::Received(Message::Text("x".to_string()))), ReadAction::Delivered));
    match server.poll() {
        Some((id, Message::Binary(bytes))) => assert_eq!((id, bytes), (b, vec![2])),
        _ => panic!("expected the binary message first"),
    }
    assert!(matches!(server.poll(), Some((id, Message::Text(_))) if id == a));
    assert!(server.poll().is_none());
}

#[test]
fn ping_is_answered_and_not_delivered() {
    let mut server = Server::new();
    let a = server.accept().unwrap();
    match server.on_read(a, ReadOutcome::Ping(vec![7, 8])) {
        ReadAction::ReplyPong(p) => assert_eq!(p, vec![7, 8]),
        _ => panic!("expected a pong"),
    }
    assert!(matches!(server.on_read(a, ReadOutcome::WouldBlock), ReadAction::Nothing));
    assert!(matches!(server.on_read(a, ReadOutcome::Unhandled), ReadAction::Nothing));
    assert!(server.poll().is_none());
    assert!(server.is_connected(a));
}

#[test]
fn disconnect_discards_queued_messages_of_that_client() {
    let mut server = Server::new();
    let a = server.accept().unwrap();
    let b = server.accept().unwrap();
    server.send(a, Message::Text("to a".to_string()));
    server.send(b, Message::Text("to b".to_string()));
    assert!(!server.on_write(a, WriteOutcome::Failed));
    assert!(matches!(server.next_outgoing(), Some((id, _)) if id == b));
    assert!(server.next_outgoing().is_none());
    assert!(server.on_write(b, WriteOutcome::WouldBlock));
}

#[test]
fn read_for_unknown_client_changes_nothing() {
    let mut server = Server::new();
    assert!(matches!(server.on_read(42, ReadOutcome::Failed), ReadAction::Nothing));
    assert!(server.clients().is_empty());
}

#[test]
fn client_failure_tears_down() {
    let mut client = Client::new();
    assert!(!client.send(Message::Text("early".to_string())));
    client.connect();
    assert!(client.is_connected());
    assert!(client.send(Message::Binary(vec![1])));
    assert!(matches!(client.on_read(ReadOutcome::Received(Message::Text("hi".to_string()))), ReadAction::Delivered));
    assert!(matches!(client.on_read(ReadOutcome::WouldBlock), ReadAction::Nothing));
    assert!(matches!(client.on_read(ReadOutcome::Failed), ReadAction::Disconnect));
    assert!(!client.is_connected());
    assert!(client.poll().is_none());
    assert!(client.next_outgoing().is_none());
}

#[test]
fn client_delivers_in_order() {
    let mut client = Client::new();
    client.connect();
    client.on_read(ReadOutcome::Received(Message::Text("1".to_string())));
    client.on_read(ReadOutcome::Received(Message::Text("2".to_string())));
    assert!(matches!(client.poll(), Some(Message::Text(t)) if t == "1"));
    assert!(matches!(client.poll(), Some(Message::Text(t)) if t == "2"));
    assert!(client.on_write(WriteOutcome::Sent));
}
