//! The life of one connection: it is attached to the record of its
//! identity, its inbound messages are read one at a time, and its identity
//! leaves the registry when it ends.
//!
//! The transport is the caller's. The caller tells what happened on it as a
//! `ConnectionEvent`, and `client_connection` answers with the state that
//! the connection is in afterwards; the caller goes on reading while that
//! state is `Active`. A connection begins when `ws_handler` answers its
//! request with a record: that takes it from `Pending` to `Upgrading`.

use vstd::prelude::*;
use crate::channel::{message_text, text_of, Sender};
use crate::json::{groups_request_in, parse_groups};
use crate::models::{attached, Client, ClientView};
use crate::registry::{after_update, Clients};
use crate::text::same_text;

verus! {

/// A subscription update, as a client sends it over its connection: the
/// groups that replace the ones it subscribes to.
pub struct GroupsRequest {
    groups: Vec<String>,
}

impl GroupsRequest {
    /// The groups asked for, in order.
    pub closed spec fn view(&self) -> Seq<Seq<char>> {
        self.groups.deep_view()
    }

    pub fn new(groups: Vec<String>) -> (request: GroupsRequest)
        ensures
            request@ == groups.deep_view(),
    {
        GroupsRequest { groups }
    }

    pub fn into_groups(self) -> (groups: Vec<String>)
        ensures
            groups.deep_view() == self@,
    {
        self.groups
    }

    /// Reads a subscription update from the text of a message: a JSON
    /// object whose member `groups` is an array of strings.
    pub fn parse(text: &str) -> (request: Option<GroupsRequest>)
        ensures
            groups_asked(request) == groups_request_in(text@),
    {
        match parse_groups(text) {
            Some(groups) => Some(GroupsRequest { groups }),
            None => None,
        }
    }
}

/// The groups that an optional subscription update asks for.
pub open spec fn groups_asked(request: Option<GroupsRequest>) -> Option<Seq<Seq<char>>> {
    match request {
        Some(r) => Some(r@),
        None => None,
    }
}

/// What became of an inbound message.
#[derive(Clone, Copy, Debug, PartialEq, Eq, Structural)]
pub enum Handled {
    /// The message holds no text; it is passed over.
    NotText,
    /// The message is the heartbeat; it asks for nothing.
    Heartbeat,
    /// The text is no subscription update; it is discarded.
    Malformed,
    /// The subscriptions of the identity were replaced.
    Updated,
    /// The text is a subscription update, but the registry does not hold
    /// the identity; nothing changed.
    Unknown,
}

/// The heartbeat is the literal text `ping`.
pub open spec fn is_heartbeat(text: Seq<char>) -> bool {
    text == "ping"@
}

/// What becomes of a subscription update that was read, or failed to be
/// read, from a message.
pub open spec fn request_outcome(
    registry: Map<Seq<char>, ClientView>,
    id: Seq<char>,
    request: Option<Seq<Seq<char>>>,
) -> Handled {
    match request {
        Some(_) => if registry.contains_key(id) {
            Handled::Updated
        } else {
            Handled::Unknown
        },
        None => Handled::Malformed,
    }
}

/// The registry after a subscription update that was read, or failed to be
/// read, from a message.
pub open spec fn after_request(
    registry: Map<Seq<char>, ClientView>,
    id: Seq<char>,
    request: Option<Seq<Seq<char>>>,
) -> Map<Seq<char>, ClientView> {
    match request {
        Some(groups) => after_update(registry, id, groups),
        None => registry,
    }
}

/// What becomes of an inbound message with the given text, if it has one.
pub open spec fn message_outcome(
    registry: Map<Seq<char>, ClientView>,
    id: Seq<char>,
    text: Option<Seq<char>>,
) -> Handled {
    match text {
        Some(t) => if is_heartbeat(t) {
            Handled::Heartbeat
        } else {
            request_outcome(registry, id, groups_request_in(t))
        },
        None => Handled::NotText,
    }
}

/// The registry after an inbound message with the given text, if it has
/// one.
pub open spec fn after_message(
    registry: Map<Seq<char>, ClientView>,
    id: Seq<char>,
    text: Option<Seq<char>>,
) -> Map<Seq<char>, ClientView> {
    match text {
        Some(t) => if is_heartbeat(t) {
            registry
        } else {
            after_request(registry, id, groups_request_in(t))
        },
        None => registry,
    }
}

/// Whether a text is the heartbeat.
pub fn heartbeat(text: &str) -> (beat: bool)
    ensures
        beat == is_heartbeat(text@),
{
    same_text(text, "ping")
}

/// Applies a subscription update that was read, or failed to be read, from
/// a message of the given identity.
pub fn apply_request(id: &str, request: Option<GroupsRequest>, clients: &mut Clients) -> (handled:
    Handled)
    ensures
        handled == request_outcome(old(clients)@, id@, groups_asked(request)),
        final(clients)@ == after_request(old(clients)@, id@, groups_asked(request)),
{
    match request {
        Some(r) => {
            if clients.update_groups(id, r.into_groups()) {
                Handled::Updated
            } else {
                Handled::Unknown
            }
        },
        None => Handled::Malformed,
    }
}

/// Handles the text of an inbound message of the given identity: the
/// heartbeat is passed over, a subscription update replaces the groups of
/// the identity, anything else is discarded.
pub fn client_text(id: &str, text: &str, clients: &mut Clients) -> (handled: Handled)
    ensures
        handled == message_outcome(old(clients)@, id@, Some(text@)),
        final(clients)@ == after_message(old(clients)@, id@, Some(text@)),
{
    if heartbeat(text) {
        return Handled::Heartbeat;
    }
    apply_request(id, GroupsRequest::parse(text), clients)
}

/// Handles one inbound message of the given identity.
pub fn client_msg(id: &str, msg: &warp::ws::Message, clients: &mut Clients) -> (handled: Handled)
    ensures
        handled == message_outcome(old(clients)@, id@, message_text(*msg)),
        final(clients)@ == after_message(old(clients)@, id@, message_text(*msg)),
{
    match text_of(msg) {
        Ok(text) => client_text(id, text, clients),
        Err(_) => Handled::NotText,
    }
}

/// Where a connection stands.
#[derive(Clone, Copy, Debug, PartialEq, Eq, Structural)]
pub enum ConnectionState {
    /// The identity is registered; no connection was asked for.
    Pending,
    /// A connection was asked for under a known identity.
    Upgrading,
    /// The outbound handle is attached and inbound messages are read.
    Active,
    /// The connection is over and its identity has left the registry.
    Closed,
}

/// What happened on the transport of a connection.
pub enum ConnectionEvent {
    /// The transport is open: the outbound queue exists, and `client` is
    /// the record that the connection request was answered with.
    Attached { client: Client, sender: Sender },
    /// A message arrived.
    Inbound { message: warp::ws::Message },
    /// Reading failed.
    Failed,
    /// The peer is gone.
    Ended,
}

/// The state of a connection after an event. An event that does not apply
/// in a state leaves the state as it is.
pub open spec fn next_state(state: ConnectionState, event: ConnectionEvent) -> ConnectionState {
    match state {
        ConnectionState::Upgrading => match event {
            ConnectionEvent::Attached { .. } => ConnectionState::Active,
            ConnectionEvent::Inbound { .. } => ConnectionState::Upgrading,
            ConnectionEvent::Failed => ConnectionState::Closed,
            ConnectionEvent::Ended => ConnectionState::Closed,
        },
        ConnectionState::Active => match event {
            ConnectionEvent::Attached { .. } => ConnectionState::Active,
            ConnectionEvent::Inbound { .. } => ConnectionState::Active,
            ConnectionEvent::Failed => ConnectionState::Closed,
            ConnectionEvent::Ended => ConnectionState::Closed,
        },
        ConnectionState::Pending => ConnectionState::Pending,
        ConnectionState::Closed => ConnectionState::Closed,
    }
}

/// The registry after an event on the connection of an identity.
///
/// Attaching writes the record back with its outbound handle. A message
/// is handled once the connection is active. The end of the transport
/// takes the identity out, whether or not it was still there. An event
/// that does not apply in a state changes nothing.
pub open spec fn next_registry(
    registry: Map<Seq<char>, ClientView>,
    id: Seq<char>,
    state: ConnectionState,
    event: ConnectionEvent,
) -> Map<Seq<char>, ClientView> {
    match state {
        ConnectionState::Upgrading => match event {
            ConnectionEvent::Attached { client, sender } => registry.insert(
                id,
                attached(client@, sender),
            ),
            ConnectionEvent::Inbound { .. } => registry,
            ConnectionEvent::Failed => registry.remove(id),
            ConnectionEvent::Ended => registry.remove(id),
        },
        ConnectionState::Active => match event {
            ConnectionEvent::Attached { .. } => registry,
            ConnectionEvent::Inbound { message } => after_message(
                registry,
                id,
                message_text(message),
            ),
            ConnectionEvent::Failed => registry.remove(id),
            ConnectionEvent::Ended => registry.remove(id),
        },
        ConnectionState::Pending => registry,
        ConnectionState::Closed => registry,
    }
}

/// What became of the message of an event, where the event is a message
/// on an active connection.
pub open spec fn next_handled(
    registry: Map<Seq<char>, ClientView>,
    id: Seq<char>,
    state: ConnectionState,
    event: ConnectionEvent,
) -> Option<Handled> {
    match state {
        ConnectionState::Active => match event {
            ConnectionEvent::Inbound { message } => Some(
                message_outcome(registry, id, message_text(message)),
            ),
            _ => None,
        },
        _ => None,
    }
}

/// Where a connection stands after an event, and what became of the
/// message that the event brought, if it brought one that was handled.
pub struct Step {
    pub state: ConnectionState,
    pub handled: Option<Handled>,
}

/// Takes a connection of the given identity through one event.
///
/// The caller goes on reading while the state is `Active`, and stops once
/// it is `Closed`.
pub fn client_connection(
    state: ConnectionState,
    event: ConnectionEvent,
    id: &str,
    clients: &mut Clients,
) -> (step: Step)
    ensures
        step.state == next_state(state, event),
        step.handled == next_handled(old(clients)@, id@, state, event),
        final(clients)@ == next_registry(old(clients)@, id@, state, event),
{
    match state {
        ConnectionState::Upgrading => match event {
            ConnectionEvent::Attached { client, sender } => {
                let record = Client {
                    user_id: client.user_id,
                    groups: client.groups,
                    sender: Some(sender),
                };
                clients.insert(id.to_owned(), record);
                Step { state: ConnectionState::Active, handled: None }
            },
            ConnectionEvent::Inbound { .. } => Step {
                state: ConnectionState::Upgrading,
                handled: None,
            },
            ConnectionEvent::Failed => {
                let _ = clients.remove(id);
                Step { state: ConnectionState::Closed, handled: None }
            },
            ConnectionEvent::Ended => {
                let _ = clients.remove(id);
                Step { state: ConnectionState::Closed, handled: None }
            },
        },
        ConnectionState::Active => match event {
            ConnectionEvent::Attached { .. } => Step {
                state: ConnectionState::Active,
                handled: None,
            },
            ConnectionEvent::Inbound { message } => {
                let handled = client_msg(id, &message, clients);
                Step { state: ConnectionState::Active, handled: Some(handled) }
            },
            ConnectionEvent::Failed => {
                let _ = clients.remove(id);
                Step { state: ConnectionState::Closed, handled: None }
            },
            ConnectionEvent::Ended => {
                let _ = clients.remove(id);
                Step { state: ConnectionState::Closed, handled: None }
            },
        },
        ConnectionState::Pending => Step { state: ConnectionState::Pending, handled: None },
        ConnectionState::Closed => Step { state: ConnectionState::Closed, handled: None },
    }
}

} // verus!
