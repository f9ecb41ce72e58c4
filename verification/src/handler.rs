//! The operations that the relay offers: registration, unregistration,
//! the connection request, publishing, and the liveness probe.
//!
//! Each takes the registry by reference: exclusive where it changes it.
//! Whoever shares the registry between tasks holds its lock for the length
//! of one call, so that a scan and its sends are one step to every other
//! caller.

use vstd::prelude::*;
use crate::channel::{message_text, send, text_message};
use crate::identity::{connection_url, connection_url_for, fresh_identity, is_identity};
use crate::json::{json_text, write_text};
use crate::models::{
    addressed,
    detached,
    Broadcast,
    Client,
    ClientView,
    Event,
    RegisterRequest,
    RegisterResponse,
    Rejection,
};
use crate::registry::Clients;

verus! {

/// The record that a registration puts into the registry.
pub open spec fn new_record(user_id: usize, groups: Seq<Seq<char>>) -> ClientView {
    ClientView { user_id: user_id, groups: groups, sender: None }
}

/// A registry after a registration under the given identity.
pub open spec fn after_register(
    registry: Map<Seq<char>, ClientView>,
    id: Seq<char>,
    user_id: usize,
    groups: Seq<Seq<char>>,
) -> Map<Seq<char>, ClientView> {
    registry.insert(id, new_record(user_id, groups))
}

/// A registry after an unregistration.
pub open spec fn after_unregister(
    registry: Map<Seq<char>, ClientView>,
    id: Seq<char>,
) -> Map<Seq<char>, ClientView> {
    registry.remove(id)
}

/// What a connection request is answered with: the record of the identity,
/// without an outbound handle, or a rejection where the registry does not
/// hold the identity.
pub open spec fn upgrade_outcome(registry: Map<Seq<char>, ClientView>, id: Seq<char>) -> Result<
    ClientView,
    Rejection,
> {
    if registry.contains_key(id) {
        Ok(detached(registry[id]))
    } else {
        Err(Rejection::NotFound)
    }
}

/// Whether a publish request reaches an identity: the registry holds it,
/// its record is addressed by the request, and a connection is active for
/// it.
pub open spec fn is_recipient(
    registry: Map<Seq<char>, ClientView>,
    filter: Option<usize>,
    group: Seq<char>,
    id: Seq<char>,
) -> bool {
    &&& registry.contains_key(id)
    &&& addressed(registry[id], filter, group)
    &&& registry[id].sender is Some
}

/// The identities that a publish request reaches, in the order of a scan.
pub open spec fn recipients_of(
    scan: Seq<Seq<char>>,
    registry: Map<Seq<char>, ClientView>,
    filter: Option<usize>,
    group: Seq<char>,
) -> Seq<Seq<char>> {
    scan.filter(|id: Seq<char>| is_recipient(registry, filter, group, id))
}

/// A list of identities is what a publish request reaches: it names every
/// identity that the request reaches, each once, and no other.
pub open spec fn delivered(
    registry: Map<Seq<char>, ClientView>,
    filter: Option<usize>,
    group: Seq<char>,
    recipients: Seq<Seq<char>>,
) -> bool {
    &&& recipients.no_duplicates()
    &&& forall|id: Seq<char>|
        recipients.contains(id) <==> is_recipient(registry, filter, group, id)
}

/// What a publish request hands out: where the payload can be written, its
/// text and the identities reached, in the order of the scan and each
/// once; nothing where it cannot.
pub open spec fn published(
    scan: Seq<Seq<char>>,
    registry: Map<Seq<char>, ClientView>,
    event: Event,
    report: Broadcast,
) -> bool {
    match json_text(event.message) {
        Some(text) => {
            &&& report.payload matches Some(payload)
            &&& payload@ == text
            &&& report.recipients.deep_view() == recipients_of(
                scan,
                registry,
                event.user_id,
                event.group@,
            )
            &&& delivered(registry, event.user_id, event.group@, report.recipients.deep_view())
        },
        None => report.payload is None && report.recipients@.len() == 0,
    }
}

/// A filter keeps a list free of duplicates, and keeps exactly the
/// elements that pass it.
proof fn lemma_filter_distinct<A>(s: Seq<A>, pred: spec_fn(A) -> bool)
    requires
        s.no_duplicates(),
    ensures
        s.filter(pred).no_duplicates(),
        forall|x: A| s.filter(pred).contains(x) <==> s.contains(x) && pred(x),
    decreases s.len(),
{
    assert forall|x: A| s.filter(pred).contains(x) <==> s.contains(x) && pred(x) by {
        if s.filter(pred).contains(x) {
            s.lemma_filter_contains_rev(pred, x);
            let k = choose|k: int| 0 <= k < s.filter(pred).len() && s.filter(pred)[k] == x;
            s.lemma_filter_pred(pred, k);
        }
        if s.contains(x) && pred(x) {
            let j = choose|j: int| 0 <= j < s.len() && s[j] == x;
            s.lemma_filter_contains(pred, j);
        }
    }
    if s.len() == 0 {
        s.lemma_filter_len(pred);
    } else {
        let front = s.drop_last();
        let last = s.last();
        assert(s =~= front.push(last));
        front.lemma_filter_push(last, pred);
        assert forall|i: int, j: int|
            0 <= i < front.len() && 0 <= j < front.len() && i != j implies front[i]
            != front[j] by {
            assert(front[i] == s[i] && front[j] == s[j]);
        }
        lemma_filter_distinct(front, pred);
        let kept = front.filter(pred);
        if pred(last) {
            assert(!front.contains(last)) by {
                if front.contains(last) {
                    let k = choose|k: int| 0 <= k < front.len() && front[k] == last;
                    assert(s[k] == front[k]);
                    assert(s[k] == s[s.len() - 1]);
                }
            }
            assert(!kept.contains(last));
            let grown = kept.push(last);
            assert forall|i: int, j: int|
                0 <= i < grown.len() && 0 <= j < grown.len() && i != j implies grown[i]
                != grown[j] by {
                if i == kept.len() {
                    assert(grown[j] == kept[j]);
                    assert(kept.contains(kept[j]));
                } else if j == kept.len() {
                    assert(grown[i] == kept[i]);
                    assert(kept.contains(kept[i]));
                } else {
                    assert(grown[i] == kept[i] && grown[j] == kept[j]);
                }
            }
        }
    }
}

/// What a scan selects is what the request reaches, each identity once.
pub proof fn lemma_recipients_delivered(
    scan: Seq<Seq<char>>,
    registry: Map<Seq<char>, ClientView>,
    filter: Option<usize>,
    group: Seq<char>,
)
    requires
        scan.no_duplicates(),
        scan.to_set() == registry.dom(),
    ensures
        delivered(registry, filter, group, recipients_of(scan, registry, filter, group)),
{
    let pred = |id: Seq<char>| is_recipient(registry, filter, group, id);
    lemma_filter_distinct(scan, pred);
    assert forall|id: Seq<char>|
        recipients_of(scan, registry, filter, group).contains(id) <==> is_recipient(
            registry,
            filter,
            group,
            id,
        ) by {
        assert(scan.to_set().contains(id) <==> scan.contains(id));
        assert(registry.dom().contains(id) <==> registry.contains_key(id));
    }
}

/// Puts a new record without a connection under an identity.
pub fn register_client(id: String, user_id: usize, groups: Vec<String>, clients: &mut Clients)
    ensures
        final(clients)@ == after_register(old(clients)@, id@, user_id, groups.deep_view()),
{
    clients.insert(id, Client::new(user_id, groups));
}

/// Registers a client under a given identity and says where to connect.
pub fn register_as(
    id: String,
    body: RegisterRequest,
    clients: &mut Clients,
    local_ip_port: &str,
) -> (response: RegisterResponse)
    ensures
        response.url@ == connection_url(local_ip_port@, id@),
        final(clients)@ == after_register(
            old(clients)@,
            id@,
            body.user_id,
            body.groups.deep_view(),
        ),
{
    let url = connection_url_for(local_ip_port, id.as_str());
    register_client(id, body.user_id, body.groups, clients);
    RegisterResponse { url }
}

/// Registers a client under a fresh identity and says where to connect.
///
/// The identity is random, so the contract names it by what it has in
/// common with every outcome: its shape, its place in the address and its
/// place in the registry.
pub fn register_handler(body: RegisterRequest, clients: &mut Clients, local_ip_port: &str) -> (reply:
    Result<RegisterResponse, Rejection>)
    ensures
        reply matches Ok(response) && exists|id: Seq<char>|
            {
                &&& is_identity(id)
                &&& response.url@ == #[trigger] connection_url(local_ip_port@, id)
                &&& final(clients)@ == after_register(
                    old(clients)@,
                    id,
                    body.user_id,
                    body.groups.deep_view(),
                )
            },
{
    let id = fresh_identity();
    let ghost chosen = id@;
    let response = register_as(id, body, clients, local_ip_port);
    assert(response.url@ == connection_url(local_ip_port@, chosen));
    Ok(response)
}

/// Takes an identity out of the registry. An identity that is not there is
/// no error.
pub fn unregister_handler(id: &str, clients: &mut Clients) -> (reply: Result<(), Rejection>)
    ensures
        reply is Ok,
        final(clients)@ == after_unregister(old(clients)@, id@),
{
    let _ = clients.remove(id);
    Ok(())
}

/// The liveness probe.
pub fn health_handler() -> (reply: Result<(), Rejection>)
    ensures
        reply is Ok,
{
    Ok(())
}

/// Answers a connection request: the record of the identity to connect
/// under, or a rejection where the identity is unknown.
///
/// A request that is answered with a record may be upgraded, and its
/// connection goes from pending to upgrading; a rejected one never is.
pub fn ws_handler(id: &str, clients: &Clients) -> (reply: Result<Client, Rejection>)
    ensures
        match reply {
            Ok(client) => upgrade_outcome(clients@, id@) == Ok::<ClientView, Rejection>(client@),
            Err(rejection) => upgrade_outcome(clients@, id@) == Err::<ClientView, Rejection>(
                rejection,
            ),
        },
{
    match clients.get(id) {
        Some(client) => Ok(client.detached_copy()),
        None => Err(Rejection::NotFound),
    }
}

/// Hands a payload to the outbound queue of every connected client that a
/// request addresses, and returns their identities in the order of the
/// scan.
///
/// A queue that has lost its reader refuses the payload; that is not
/// reported.
pub fn dispatch(clients: &Clients, filter: Option<usize>, group: &str, payload: &str) -> (recipients:
    Vec<String>)
    ensures
        recipients.deep_view() == recipients_of(clients.ids(), clients@, filter, group@),
        delivered(clients@, filter, group@, recipients.deep_view()),
{
    let mut recipients: Vec<String> = Vec::new();
    let n: usize = clients.len();
    let ghost pred = |id: Seq<char>| is_recipient(clients@, filter, group@, id);
    let mut i: usize = 0;
    proof {
        clients.ids().take(0).lemma_filter_len(pred);
        assert(clients.ids().take(0) =~= Seq::<Seq<char>>::empty());
        assert(recipients.deep_view() =~= clients.ids().take(0).filter(pred));
    }
    while i < n
        invariant
            i <= n,
            n == clients.ids().len(),
            pred == (|id: Seq<char>| is_recipient(clients@, filter, group@, id)),
            recipients.deep_view() == clients.ids().take(i as int).filter(pred),
        decreases n - i,
    {
        let ghost before = recipients.deep_view();
        match clients.nth(i) {
            Some((id, client)) => {
                proof {
                    clients.ids().take(i as int).lemma_filter_push(id@, pred);
                    assert(clients.ids().take(i + 1) =~= clients.ids().take(i as int).push(id@));
                }
                if client.is_addressed(filter, group) {
                    match &client.sender {
                        Some(sender) => {
                            let message = text_message(payload.to_owned());
                            assert(message_text(message) == Some(payload@));
                            let _ = send(sender, message);
                            recipients.push(id.to_owned());
                            assert(recipients.deep_view() =~= before.push(id@));
                        },
                        None => {},
                    }
                }
            },
            None => {},
        }
        i += 1;
    }
    proof {
        assert(clients.ids().take(n as int) =~= clients.ids());
        lemma_recipients_delivered(clients.ids(), clients@, filter, group@);
    }
    recipients
}

/// Publishes: writes the payload as JSON text and hands it to every
/// connected client that the request addresses. Publishing always
/// succeeds, whoever was reached.
pub fn publish_handler(body: &Event, clients: &Clients) -> (reply: Result<Broadcast, Rejection>)
    ensures
        reply matches Ok(report) && published(clients.ids(), clients@, *body, report),
{
    match write_text(&body.message) {
        Ok(text) => {
            let recipients = dispatch(clients, body.user_id, body.group.as_str(), text.as_str());
            Ok(Broadcast { payload: Some(text), recipients })
        },
        Err(_) => Ok(Broadcast { payload: None, recipients: Vec::new() }),
    }
}

} // verus!
