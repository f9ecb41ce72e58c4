use tokio::sync::mpsc::unbounded_channel;
use ws_relay::channel::Sender;
use ws_relay::handler::{health_handler, register_as, register_client, register_handler};
use ws_relay::identity::connection_url_for;
use ws_relay::models::{admits, Client, RegisterRequest, TopicsRequest};
use ws_relay::registry::Clients;

fn groups(names: &[&str]) -> Vec<String> {
    names.iter().map(|g| g.to_string()).collect()
}

fn sender() -> Sender {
    let (sender, _receiver) = unbounded_channel();
    sender
}

#[test]
fn new_registry_is_empty() {
    let clients = Clients::new();
    assert_eq!(clients.len(), 0);
    assert!(clients.get("x").is_none());
    assert!(clients.nth(0).is_none());
    assert!(!clients.contains_key("x"));
}

#[test]
fn insert_then_get_returns_the_record() {
    let mut clients = Clients::new();
    clients.insert("a".to_string(), Client::new(3, groups(&["g1", "g2"])));
    let record = clients.get("a").expect("inserted");
    assert_eq!(record.user_id, 3);
    assert_eq!(record.groups, groups(&["g1", "g2"]));
    assert!(record.sender.is_none());
    assert!(clients.contains_key("a"));
    assert!(!clients.contains_key("A"));
    assert!(!clients.contains_key("ab"));
    assert!(!clients.contains_key(""));
}

#[test]
fn insert_under_known_identity_replaces_and_keeps_place() {
    let mut clients = Clients::new();
    clients.insert("a".to_string(), Client::new(1, groups(&["x"])));
    clients.insert("b".to_string(), Client::new(2, groups(&["y"])));
    clients.insert("a".to_string(), Client::new(9, groups(&["z"])));
    assert_eq!(clients.len(), 2);
    assert_eq!(clients.get("a").unwrap().user_id, 9);
    assert_eq!(clients.get("a").unwrap().groups, groups(&["z"]));
    let (first, _) = clients.nth(0).unwrap();
    let (second, record) = clients.nth(1).unwrap();
    assert_eq!(first, "a");
    assert_eq!(second, "b");
    assert_eq!(record.user_id, 2);
    assert!(clients.nth(2).is_none());
}

#[test]
fn remove_returns_the_record_once() {
    let mut clients = Clients::new();
    clients.insert("a".to_string(), Client::new(1, groups(&["x"])));
    clients.insert("b".to_string(), Client::new(2, groups(&["y"])));
    clients.insert("c".to_string(), Client::new(3, groups(&[])));
    let removed = clients.remove("b").expect("present");
    assert_eq!(removed.user_id, 2);
    assert!(clients.remove("b").is_none());
    assert_eq!(clients.len(), 2);
    assert_eq!(clients.nth(0).unwrap().0, "a");
    assert_eq!(clients.nth(1).unwrap().0, "c");
    assert!(clients.get("b").is_none());
    assert_eq!(clients.get("c").unwrap().user_id, 3);
}

#[test]
fn update_groups_replaces_only_the_groups() {
    let mut clients = Clients::new();
    let mut record = Client::new(4, groups(&["old"]));
    record.sender = Some(sender());
    clients.insert("a".to_string(), record);
    clients.insert("b".to_string(), Client::new(5, groups(&["keep"])));

    assert!(clients.update_groups("a", groups(&["n1", "n2"])));
    let updated = clients.get("a").unwrap();
    assert_eq!(updated.user_id, 4);
    assert_eq!(updated.groups, groups(&["n1", "n2"]));
    assert!(updated.sender.is_some());
    assert_eq!(clients.get("b").unwrap().groups, groups(&["keep"]));
    assert_eq!(clients.nth(0).unwrap().0, "a");
    assert_eq!(clients.len(), 2);
}

#[test]
fn update_groups_of_unknown_identity_changes_nothing() {
    let mut clients = Clients::new();
    clients.insert("a".to_string(), Client::new(4, groups(&["old"])));
    assert!(!clients.update_groups("zz", groups(&["n"])));
    assert_eq!(clients.len(), 1);
    assert_eq!(clients.get("a").unwrap().groups, groups(&["old"]));
}

#[test]
fn register_client_inserts_a_record_without_connection() {
    let mut clients = Clients::new();
    register_client("abc".to_string(), 11, groups(&["cats"]), &mut clients);
    let record = clients.get("abc").unwrap();
    assert_eq!(record.user_id, 11);
    assert_eq!(record.groups, groups(&["cats"]));
    assert!(!record.is_connected());
}

#[test]
fn register_as_embeds_identity_in_address() {
    let mut clients = Clients::new();
    let body = RegisterRequest { user_id: 1, groups: groups(&["test"]) };
    let reply = register_as("e2fa9068".to_string(), body, &mut clients, "10.0.0.5:8000");
    assert_eq!(reply.url, "ws://10.0.0.5:8000/ws/e2fa9068");
    assert!(clients.contains_key("e2fa9068"));
    assert_eq!(clients.len(), 1);
}

#[test]
fn connection_url_has_the_documented_shape() {
    assert_eq!(connection_url_for("127.0.0.1:8080", "abc"), "ws://127.0.0.1:8080/ws/abc");
    assert_eq!(connection_url_for("", ""), "ws:///ws/");
}

#[test]
fn register_handler_generates_identity_of_32_hex_digits() {
    let mut clients = Clients::new();
    let body = RegisterRequest { user_id: 1, groups: groups(&["test"]) };
    let reply = register_handler(body, &mut clients, "h:1").unwrap();
    let prefix = "ws://h:1/ws/";
    assert!(reply.url.starts_with(prefix));
    let id = &reply.url[prefix.len()..];
    assert_eq!(id.len(), 32);
    assert!(id.chars().all(|c| c.is_ascii_digit() || ('a'..='f').contains(&c)));
    assert_eq!(clients.len(), 1);
    let record = clients.get(id).expect("registered under the identity in the address");
    assert_eq!(record.user_id, 1);
    assert_eq!(record.groups, groups(&["test"]));
    assert!(record.sender.is_none());
}

#[test]
fn register_handler_gives_each_client_its_own_identity() {
    let mut clients = Clients::new();
    let first = register_handler(
        RegisterRequest { user_id: 1, groups: groups(&[]) },
        &mut clients,
        "h:1",
    )
    .unwrap();
    let second = register_handler(
        RegisterRequest { user_id: 1, groups: groups(&[]) },
        &mut clients,
        "h:1",
    )
    .unwrap();
    assert_ne!(first.url, second.url);
    assert_eq!(clients.len(), 2);
}

#[test]
fn health_is_always_ok() {
    assert_eq!(health_handler(), Ok(()));
}

#[test]
fn owner_filter_admits_as_documented() {
    assert!(admits(None, 0));
    assert!(admits(None, 42));
    assert!(admits(Some(42), 42));
    assert!(!admits(Some(42), 41));
    assert!(!admits(Some(0), usize::MAX));
}

#[test]
fn client_predicates() {
    let mut record = Client::new(5, groups(&["a", "b"]));
    assert!(record.subscribes_to("a"));
    assert!(record.subscribes_to("b"));
    assert!(!record.subscribes_to("c"));
    assert!(!record.subscribes_to(""));
    assert!(record.is_addressed(None, "a"));
    assert!(record.is_addressed(Some(5), "b"));
    assert!(!record.is_addressed(Some(6), "a"));
    assert!(!record.is_addressed(Some(5), "c"));
    assert!(!record.is_connected());
    record.sender = Some(sender());
    assert!(record.is_connected());
    let copy = record.detached_copy();
    assert_eq!(copy.user_id, 5);
    assert_eq!(copy.groups, groups(&["a", "b"]));
    assert!(copy.sender.is_none());
}

#[test]
fn topics_request_keeps_its_groups() {
    let request = TopicsRequest::new(groups(&["t1", "t2"]));
    assert_eq!(request.into_groups(), groups(&["t1", "t2"]));
}
