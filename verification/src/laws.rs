//! What holds of the relay as a whole, proved from the contracts of its
//! operations.
//!
//! Each statement is over the registry as a map and over the functions that
//! the contracts use: `after_register`, `after_unregister`,
//! `upgrade_outcome`, `next_registry`, `after_message`, `after_request`,
//! `published` and `delivered`.

use vstd::prelude::*;
use crate::channel::Sender;
use crate::handler::{
    after_register,
    after_unregister,
    delivered,
    is_recipient,
    new_record,
    published,
    upgrade_outcome,
};
use crate::json::{groups_request_in, json_text};
use crate::models::{attached, owner_admits, Broadcast, Client, ClientView, Event, Rejection};
use crate::ws::{
    after_message,
    after_request,
    is_heartbeat,
    message_outcome,
    next_registry,
    next_state,
    request_outcome,
    ConnectionEvent,
    ConnectionState,
    Handled,
};

verus! {

/// A client that registered and then connected stands in the registry
/// with its owner, its groups and its outbound handle.
pub proof fn registered_then_connected(
    base: Map<Seq<char>, ClientView>,
    id: Seq<char>,
    owner: usize,
    groups: Seq<Seq<char>>,
    client: Client,
    sender: Sender,
)
    requires
        upgrade_outcome(after_register(base, id, owner, groups), id) == Ok::<ClientView, Rejection>(
            client@,
        ),
    ensures
        ({
            let event = ConnectionEvent::Attached { client, sender };
            let registry = next_registry(
                after_register(base, id, owner, groups),
                id,
                ConnectionState::Upgrading,
                event,
            );
            &&& next_state(ConnectionState::Upgrading, event) == ConnectionState::Active
            &&& registry.contains_key(id)
            &&& registry[id] == attached(new_record(owner, groups), sender)
        }),
{
}

/// A publish to a group under an owner hands the payload, as it is
/// written, to every connected client of that owner that subscribes to the
/// group, exactly once, and to no client that does not subscribe to the
/// group.
pub proof fn publish_reaches_each_subscriber_once(
    scan: Seq<Seq<char>>,
    registry: Map<Seq<char>, ClientView>,
    event: Event,
    report: Broadcast,
    id: Seq<char>,
)
    requires
        registry.contains_key(id),
        registry[id].sender is Some,
        event.user_id == Some(registry[id].user_id),
        registry[id].groups.contains(event.group@),
        published(scan, registry, event, report),
        report.payload is Some,
    ensures
        json_text(event.message) == Some(report.payload->0@),
        report.recipients.deep_view().to_multiset().count(id) == 1,
        forall|other: Seq<char>| #[trigger]
            report.recipients.deep_view().contains(other) ==> registry.contains_key(other)
                && registry[other].groups.contains(event.group@),
{
    broadcast use vstd::seq_lib::group_to_multiset_ensures;

    let recipients = report.recipients.deep_view();
    assert(is_recipient(registry, event.user_id, event.group@, id));
    assert(recipients.contains(id));
    recipients.lemma_multiset_has_no_duplicates();
    assert forall|other: Seq<char>| #[trigger] recipients.contains(other) implies registry.contains_key(
        other,
    ) && registry[other].groups.contains(event.group@) by {
        assert(is_recipient(registry, event.user_id, event.group@, other));
    }
}

/// A publish under an owner reaches only clients of that owner.
pub proof fn publish_under_owner_reaches_that_owner_only(
    registry: Map<Seq<char>, ClientView>,
    owner: usize,
    group: Seq<char>,
    recipients: Seq<Seq<char>>,
)
    requires
        delivered(registry, Some(owner), group, recipients),
    ensures
        forall|id: Seq<char>| #[trigger]
            recipients.contains(id) ==> registry.contains_key(id) && registry[id].user_id == owner,
{
    assert forall|id: Seq<char>| #[trigger] recipients.contains(id) implies registry.contains_key(id)
        && registry[id].user_id == owner by {
        assert(is_recipient(registry, Some(owner), group, id));
    }
}

/// A publish without an owner reaches every connected client that
/// subscribes to the group, whoever owns it, and no one else.
pub proof fn publish_without_owner_reaches_every_owner(
    registry: Map<Seq<char>, ClientView>,
    group: Seq<char>,
    recipients: Seq<Seq<char>>,
)
    requires
        delivered(registry, None, group, recipients),
    ensures
        forall|id: Seq<char>| #[trigger]
            recipients.contains(id) <==> registry.contains_key(id) && registry[id].sender is Some
                && registry[id].groups.contains(group),
{
    assert forall|id: Seq<char>| #[trigger]
        recipients.contains(id) <==> registry.contains_key(id) && registry[id].sender is Some
            && registry[id].groups.contains(group) by {
        assert(recipients.contains(id) <==> is_recipient(registry, None, group, id));
    }
}

/// After an identity was unregistered, a connection request under it is
/// rejected as not found.
pub proof fn unregistered_identity_is_rejected(registry: Map<Seq<char>, ClientView>, id: Seq<char>)
    ensures
        upgrade_outcome(after_unregister(registry, id), id) == Err::<ClientView, Rejection>(
            Rejection::NotFound,
        ),
{
}

/// Unregistering is idempotent: a second unregistration changes nothing.
pub proof fn unregistering_twice_is_unregistering_once(
    registry: Map<Seq<char>, ClientView>,
    id: Seq<char>,
)
    ensures
        after_unregister(after_unregister(registry, id), id) == after_unregister(registry, id),
{
    assert(after_unregister(after_unregister(registry, id), id) =~= after_unregister(registry, id));
}

/// When the transport of a connection ends, by the peer or by a failed
/// read, the connection is closed, its identity is gone from the registry,
/// and no publish reaches it any more.
pub proof fn disconnected_identity_is_gone(
    registry: Map<Seq<char>, ClientView>,
    id: Seq<char>,
    state: ConnectionState,
    event: ConnectionEvent,
    filter: Option<usize>,
    group: Seq<char>,
    recipients: Seq<Seq<char>>,
)
    requires
        state == ConnectionState::Active || state == ConnectionState::Upgrading,
        event is Ended || event is Failed,
        delivered(next_registry(registry, id, state, event), filter, group, recipients),
    ensures
        next_state(state, event) == ConnectionState::Closed,
        !next_registry(registry, id, state, event).contains_key(id),
        !recipients.contains(id),
{
    let after = next_registry(registry, id, state, event);
    assert(after == registry.remove(id));
    assert(!is_recipient(after, filter, group, id));
}

/// After a subscription update, a publish reaches the identity exactly
/// where its new groups hold the group published to: the groups it
/// subscribed to before count no longer. Whom else a publish reaches is as
/// before.
pub proof fn update_replaces_subscriptions(
    registry: Map<Seq<char>, ClientView>,
    id: Seq<char>,
    groups: Seq<Seq<char>>,
    filter: Option<usize>,
    group: Seq<char>,
)
    requires
        registry.contains_key(id),
    ensures
        request_outcome(registry, id, Some(groups)) == Handled::Updated,
        is_recipient(after_request(registry, id, Some(groups)), filter, group, id) <==> {
            &&& registry[id].sender is Some
            &&& owner_admits(filter, registry[id].user_id)
            &&& groups.contains(group)
        },
        forall|other: Seq<char>|
            other != id ==> (is_recipient(
                after_request(registry, id, Some(groups)),
                filter,
                group,
                other,
            ) <==> is_recipient(registry, filter, group, other)),
{
}

/// A message that is not the heartbeat acts as the subscription update
/// that its text holds, and changes nothing where it holds none.
pub proof fn message_acts_as_its_update(
    registry: Map<Seq<char>, ClientView>,
    id: Seq<char>,
    text: Seq<char>,
)
    requires
        !is_heartbeat(text),
    ensures
        message_outcome(registry, id, Some(text)) == request_outcome(
            registry,
            id,
            groups_request_in(text),
        ),
        after_message(registry, id, Some(text)) == after_request(
            registry,
            id,
            groups_request_in(text),
        ),
        groups_request_in(text) is None ==> after_message(registry, id, Some(text)) == registry,
{
}

/// The heartbeat changes no subscription: the registry after it is the
/// registry before it, so every publish reaches whom it reached before.
pub proof fn heartbeat_changes_nothing(
    registry: Map<Seq<char>, ClientView>,
    id: Seq<char>,
    text: Seq<char>,
    filter: Option<usize>,
    group: Seq<char>,
    recipients: Seq<Seq<char>>,
)
    requires
        is_heartbeat(text),
    ensures
        message_outcome(registry, id, Some(text)) == Handled::Heartbeat,
        after_message(registry, id, Some(text)) == registry,
        delivered(after_message(registry, id, Some(text)), filter, group, recipients) <==> delivered(
            registry,
            filter,
            group,
            recipients,
        ),
{
}

} // verus!
