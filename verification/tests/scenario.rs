use serde_json::Value;
use tokio::sync::mpsc::error::TryRecvError;
use tokio::sync::mpsc::{unbounded_channel, UnboundedReceiver};
use warp::ws::Message;
use ws_relay::channel::Outgoing;
use ws_relay::handler::{
    publish_handler, register_handler, unregister_handler, ws_handler,
};
use ws_relay::models::{Event, RegisterRequest, Rejection};
use ws_relay::registry::Clients;
use ws_relay::ws::{client_connection, ConnectionEvent, ConnectionState, Handled};

fn text(s: &str) -> Value {
    Value::String(s.to_string())
}

fn event(owner: Option<usize>, group: &str, message: Value) -> Event {
    Event { user_id: owner, group: group.to_string(), message }
}

/// Registers a client and returns the identity that its address ends in.
fn register(clients: &mut Clients, owner: usize, groups: &[&str]) -> String {
    let body = RegisterRequest {
        user_id: owner,
        groups: groups.iter().map(|g| g.to_string()).collect(),
    };
    let reply = register_handler(body, clients, "127.0.0.1:8080").expect("registration succeeds");
    let prefix = "ws://127.0.0.1:8080/ws/";
    assert!(reply.url.starts_with(prefix));
    reply.url[prefix.len()..].to_string()
}

/// Connects a registered client and returns the consumer end of its queue.
fn connect(clients: &mut Clients, id: &str) -> UnboundedReceiver<Outgoing> {
    let client = ws_handler(id, clients).expect("the identity is known");
    let (sender, receiver) = unbounded_channel();
    let step = client_connection(
        ConnectionState::Upgrading,
        ConnectionEvent::Attached { client, sender },
        id,
        clients,
    );
    assert_eq!(step.state, ConnectionState::Active);
    assert_eq!(step.handled, None);
    receiver
}

/// The text of the next queued message, or `None` where the queue is empty.
fn next_text(receiver: &mut UnboundedReceiver<Outgoing>) -> Option<String> {
    match receiver.try_recv() {
        Ok(Ok(message)) => Some(message.to_str().expect("a text message").to_string()),
        Ok(Err(_)) => panic!("an error was queued"),
        Err(TryRecvError::Empty) => None,
        Err(TryRecvError::Disconnected) => None,
    }
}

#[test]
fn published_message_reaches_matching_client_only() {
    let mut clients = Clients::new();
    let id = register(&mut clients, 1, &["cats"]);
    let mut inbox = connect(&mut clients, &id);

    let report = publish_handler(&event(Some(1), "cats", text("hi")), &clients).unwrap();
    assert_eq!(report.payload, Some("\"hi\"".to_string()));
    assert_eq!(report.recipients, vec![id.clone()]);
    assert_eq!(next_text(&mut inbox), Some("\"hi\"".to_string()));
    assert_eq!(next_text(&mut inbox), None);

    let report = publish_handler(&event(Some(2), "cats", text("x")), &clients).unwrap();
    assert_eq!(report.payload, Some("\"x\"".to_string()));
    assert!(report.recipients.is_empty());
    assert_eq!(next_text(&mut inbox), None);

    let report = publish_handler(&event(None, "dogs", text("y")), &clients).unwrap();
    assert!(report.recipients.is_empty());
    assert_eq!(next_text(&mut inbox), None);
}

#[test]
fn publish_delivers_exactly_once_to_each_subscriber() {
    let mut clients = Clients::new();
    let a = register(&mut clients, 7, &["news", "cats"]);
    let b = register(&mut clients, 7, &["news"]);
    let c = register(&mut clients, 7, &["dogs"]);
    let mut inbox_a = connect(&mut clients, &a);
    let mut inbox_b = connect(&mut clients, &b);
    let mut inbox_c = connect(&mut clients, &c);

    let report = publish_handler(&event(Some(7), "news", text("m")), &clients).unwrap();
    assert_eq!(report.recipients, vec![a.clone(), b.clone()]);

    assert_eq!(next_text(&mut inbox_a), Some("\"m\"".to_string()));
    assert_eq!(next_text(&mut inbox_a), None);
    assert_eq!(next_text(&mut inbox_b), Some("\"m\"".to_string()));
    assert_eq!(next_text(&mut inbox_b), None);
    assert_eq!(next_text(&mut inbox_c), None);
}

#[test]
fn owner_filter_restricts_and_its_absence_does_not() {
    let mut clients = Clients::new();
    let one = register(&mut clients, 1, &["g"]);
    let two = register(&mut clients, 2, &["g"]);
    let mut inbox_one = connect(&mut clients, &one);
    let mut inbox_two = connect(&mut clients, &two);

    let report = publish_handler(&event(Some(2), "g", text("only two")), &clients).unwrap();
    assert_eq!(report.recipients, vec![two.clone()]);
    assert_eq!(next_text(&mut inbox_one), None);
    assert_eq!(next_text(&mut inbox_two), Some("\"only two\"".to_string()));

    let report = publish_handler(&event(None, "g", text("all")), &clients).unwrap();
    assert_eq!(report.recipients, vec![one.clone(), two.clone()]);
    assert_eq!(next_text(&mut inbox_one), Some("\"all\"".to_string()));
    assert_eq!(next_text(&mut inbox_two), Some("\"all\"".to_string()));
}

#[test]
fn registered_but_unconnected_client_receives_nothing() {
    let mut clients = Clients::new();
    let id = register(&mut clients, 1, &["cats"]);
    assert!(clients.contains_key(&id));
    let report = publish_handler(&event(Some(1), "cats", text("hi")), &clients).unwrap();
    assert!(report.recipients.is_empty());
    assert_eq!(report.payload, Some("\"hi\"".to_string()));
}

#[test]
fn publish_to_empty_registry_succeeds() {
    let clients = Clients::new();
    let reply = publish_handler(&event(None, "cats", text("hi")), &clients);
    let report = reply.expect("publishing always succeeds");
    assert!(report.recipients.is_empty());
}

#[test]
fn structured_payload_is_forwarded_as_compact_json() {
    let mut clients = Clients::new();
    let id = register(&mut clients, 1, &["test"]);
    let mut inbox = connect(&mut clients, &id);

    let mut object = serde_json::Map::new();
    object.insert("status".to_string(), text("test2"));
    object.insert("count".to_string(), Value::from(3u64));
    let report = publish_handler(&event(Some(1), "test", Value::Object(object)), &clients).unwrap();
    let expected = "{\"count\":3,\"status\":\"test2\"}".to_string();
    assert_eq!(report.payload, Some(expected.clone()));
    assert_eq!(next_text(&mut inbox), Some(expected));
}

#[test]
fn unregistered_identity_cannot_connect() {
    let mut clients = Clients::new();
    let id = register(&mut clients, 1, &["cats"]);
    assert!(ws_handler(&id, &clients).is_ok());
    assert!(unregister_handler(&id, &mut clients).is_ok());
    assert_eq!(ws_handler(&id, &clients).err(), Some(Rejection::NotFound));
    assert!(!clients.contains_key(&id));
}

#[test]
fn unregistering_unknown_identity_is_no_error() {
    let mut clients = Clients::new();
    let id = register(&mut clients, 1, &["cats"]);
    assert!(unregister_handler("no-such-identity", &mut clients).is_ok());
    assert_eq!(clients.len(), 1);
    assert!(unregister_handler(&id, &mut clients).is_ok());
    assert!(unregister_handler(&id, &mut clients).is_ok());
    assert_eq!(clients.len(), 0);
}

#[test]
fn disconnected_client_leaves_registry_and_receives_nothing() {
    let mut clients = Clients::new();
    let id = register(&mut clients, 1, &["cats"]);
    let mut inbox = connect(&mut clients, &id);

    let step = client_connection(ConnectionState::Active, ConnectionEvent::Ended, &id, &mut clients);
    assert_eq!(step.state, ConnectionState::Closed);
    assert_eq!(step.handled, None);
    assert!(!clients.contains_key(&id));

    let report = publish_handler(&event(Some(1), "cats", text("late")), &clients).unwrap();
    assert!(report.recipients.is_empty());
    assert_eq!(next_text(&mut inbox), None);
    assert_eq!(ws_handler(&id, &clients).err(), Some(Rejection::NotFound));
}

#[test]
fn subscription_update_moves_delivery_to_new_groups() {
    let mut clients = Clients::new();
    let id = register(&mut clients, 1, &["a"]);
    let mut inbox = connect(&mut clients, &id);

    let update = ConnectionEvent::Inbound { message: Message::text("{\"groups\": [\"b\"]}") };
    let step = client_connection(ConnectionState::Active, update, &id, &mut clients);
    assert_eq!(step.state, ConnectionState::Active);
    assert_eq!(step.handled, Some(Handled::Updated));
    assert_eq!(clients.get(&id).unwrap().groups, vec!["b".to_string()]);

    let report = publish_handler(&event(Some(1), "a", text("old")), &clients).unwrap();
    assert!(report.recipients.is_empty());
    assert_eq!(next_text(&mut inbox), None);

    let report = publish_handler(&event(Some(1), "b", text("new")), &clients).unwrap();
    assert_eq!(report.recipients, vec![id.clone()]);
    assert_eq!(next_text(&mut inbox), Some("\"new\"".to_string()));
}

#[test]
fn ping_changes_nothing_and_delivers_nothing() {
    let mut clients = Clients::new();
    let id = register(&mut clients, 1, &["a"]);
    let mut inbox = connect(&mut clients, &id);

    let ping = ConnectionEvent::Inbound { message: Message::text("ping") };
    let step = client_connection(ConnectionState::Active, ping, &id, &mut clients);
    assert_eq!(step.state, ConnectionState::Active);
    assert_eq!(step.handled, Some(Handled::Heartbeat));
    let record = clients.get(&id).unwrap();
    assert_eq!(record.groups, vec!["a".to_string()]);
    assert_eq!(record.user_id, 1);
    assert!(record.sender.is_some());
    assert_eq!(next_text(&mut inbox), None);

    let report = publish_handler(&event(Some(1), "a", text("still")), &clients).unwrap();
    assert_eq!(report.recipients, vec![id.clone()]);
    assert_eq!(next_text(&mut inbox), Some("\"still\"".to_string()));
}

#[test]
fn closed_queue_does_not_fail_publish() {
    let mut clients = Clients::new();
    let gone = register(&mut clients, 1, &["cats"]);
    let here = register(&mut clients, 1, &["cats"]);
    let inbox_gone = connect(&mut clients, &gone);
    let mut inbox_here = connect(&mut clients, &here);
    drop(inbox_gone);

    let reply = publish_handler(&event(Some(1), "cats", text("hi")), &clients);
    assert!(reply.is_ok());
    assert_eq!(next_text(&mut inbox_here), Some("\"hi\"".to_string()));
    assert_eq!(clients.len(), 2);
}
