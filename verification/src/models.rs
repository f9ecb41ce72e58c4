//! The data of the relay: client records, requests and replies.

use vstd::prelude::*;
use crate::channel::Sender;
use crate::text::{copy_texts, holds_text};

verus! {

/// One registered client.
///
/// `sender` is the producer end of the client's outbound queue. It is
/// present exactly while a connection is active for the client.
pub struct Client {
    pub user_id: usize,
    pub groups: Vec<String>,
    pub sender: Option<Sender>,
}

/// What a client record stands for: its owner, the groups it subscribes
/// to, in order, and its outbound handle.
#[verifier::ext_equal]
pub struct ClientView {
    pub user_id: usize,
    pub groups: Seq<Seq<char>>,
    pub sender: Option<Sender>,
}

impl View for Client {
    type V = ClientView;

    open spec fn view(&self) -> ClientView {
        ClientView { user_id: self.user_id, groups: self.groups.deep_view(), sender: self.sender }
    }
}

/// Whether a publish request with the given owner filter may reach a
/// client of the given owner: no filter admits every owner, a filter
/// admits that owner alone.
pub open spec fn owner_admits(filter: Option<usize>, owner: usize) -> bool {
    match filter {
        Some(wanted) => owner == wanted,
        None => true,
    }
}

/// Whether a client is addressed by a publish request: its owner is
/// admitted and it subscribes to the group.
pub open spec fn addressed(client: ClientView, filter: Option<usize>, group: Seq<char>) -> bool {
    owner_admits(filter, client.user_id) && client.groups.contains(group)
}

/// The record of a client as it stands between registration and
/// connection, and as a connection request is handed it: without an
/// outbound handle.
pub open spec fn detached(client: ClientView) -> ClientView {
    ClientView { sender: None, ..client }
}

/// The record of a client with an outbound handle attached.
pub open spec fn attached(client: ClientView, sender: Sender) -> ClientView {
    ClientView { sender: Some(sender), ..client }
}

/// The record of a client with its subscriptions replaced.
pub open spec fn resubscribed(client: ClientView, groups: Seq<Seq<char>>) -> ClientView {
    ClientView { groups: groups, ..client }
}

/// Decides whether an owner filter admits an owner.
pub fn admits(filter: Option<usize>, owner: usize) -> (admitted: bool)
    ensures
        admitted == owner_admits(filter, owner),
{
    match filter {
        Some(wanted) => owner == wanted,
        None => true,
    }
}

impl Client {
    /// A record without a connection.
    pub fn new(user_id: usize, groups: Vec<String>) -> (client: Client)
        ensures
            client@ == (ClientView { user_id: user_id, groups: groups.deep_view(), sender: None }),
    {
        Client { user_id, groups, sender: None }
    }

    /// Whether the client subscribes to a group.
    pub fn subscribes_to(&self, group: &str) -> (subscribed: bool)
        ensures
            subscribed == self@.groups.contains(group@),
    {
        holds_text(&self.groups, group)
    }

    /// Whether a publish request addresses the client.
    pub fn is_addressed(&self, filter: Option<usize>, group: &str) -> (hit: bool)
        ensures
            hit == addressed(self@, filter, group@),
    {
        admits(filter, self.user_id) && self.subscribes_to(group)
    }

    /// Whether a connection is active for the client.
    pub fn is_connected(&self) -> (connected: bool)
        ensures
            connected == self@.sender is Some,
    {
        self.sender.is_some()
    }

    /// A copy of the record without its outbound handle.
    pub fn detached_copy(&self) -> (copy: Client)
        ensures
            copy@ == detached(self@),
    {
        Client { user_id: self.user_id, groups: copy_texts(&self.groups), sender: None }
    }
}

/// The body of a registration: the owner and the groups to start with.
pub struct RegisterRequest {
    pub user_id: usize,
    pub groups: Vec<String>,
}

/// The reply to a registration: where to connect.
pub struct RegisterResponse {
    pub url: String,
}

/// A publish request: an optional owner to restrict delivery to, the group
/// addressed, and the payload, which is forwarded as it is written.
pub struct Event {
    pub user_id: Option<usize>,
    pub group: String,
    pub message: serde_json::Value,
}

/// A list of topics, as a client may name them.
pub struct TopicsRequest {
    groups: Vec<String>,
}

impl TopicsRequest {
    pub closed spec fn view(&self) -> Seq<Seq<char>> {
        self.groups.deep_view()
    }

    pub fn new(groups: Vec<String>) -> (request: TopicsRequest)
        ensures
            request@ == groups.deep_view(),
    {
        TopicsRequest { groups }
    }

    pub fn into_groups(self) -> (groups: Vec<String>)
        ensures
            groups.deep_view() == self@,
    {
        self.groups
    }
}

/// Why a request is turned away.
#[derive(Clone, Copy, Debug, PartialEq, Eq, Structural)]
pub enum Rejection {
    /// The identity is not in the registry.
    NotFound,
}

/// What a publish request handed out: the payload text, and the identities
/// of the clients whose outbound queue was given it, each once.
#[derive(Debug)]
pub struct Broadcast {
    pub payload: Option<String>,
    pub recipients: Vec<String>,
}

} // verus!
