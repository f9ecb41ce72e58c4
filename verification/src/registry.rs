//! The registry of clients: every known identity with its record.
//!
//! The registry stands for a map from identity to record. It is kept as a
//! list of entries in which no identity occurs twice; the list's order is
//! the order in which a scan visits the records.
//!
//! Every operation takes the registry by reference, so none sees another
//! half done: a change needs the registry to itself, and a scan keeps it
//! borrowed from its first record to its last, so that no record can leave
//! while the scan runs.

use vstd::prelude::*;
use crate::models::{resubscribed, Client, ClientView};
use crate::text::same_text;

verus! {

struct Entry {
    id: String,
    client: Client,
}

/// The identities of a list of entries, in order.
spec fn ids_of(entries: Seq<Entry>) -> Seq<Seq<char>> {
    Seq::new(entries.len(), |i: int| entries[i].id@)
}

/// No identity occurs twice in a list of entries.
spec fn distinct(entries: Seq<Entry>) -> bool {
    forall|i: int, j: int|
        0 <= i < j < entries.len() ==> (#[trigger] entries[i]).id@ != (#[trigger] entries[j]).id@
}

/// The map that a list of entries stands for.
spec fn model(entries: Seq<Entry>) -> Map<Seq<char>, ClientView> {
    Map::new(
        |id: Seq<char>| ids_of(entries).contains(id),
        |id: Seq<char>| entries[ids_of(entries).index_of(id)].client@,
    )
}

proof fn lemma_model_at(entries: Seq<Entry>, i: int)
    requires
        distinct(entries),
        0 <= i < entries.len(),
    ensures
        ids_of(entries).contains(entries[i].id@),
        ids_of(entries).index_of(entries[i].id@) == i,
        model(entries).contains_key(entries[i].id@),
        model(entries)[entries[i].id@] == entries[i].client@,
{
    let ids = ids_of(entries);
    assert(ids[i] == entries[i].id@);
    let k = ids.index_of(entries[i].id@);
    assert(0 <= k < ids.len() && ids[k] == entries[i].id@);
    assert(entries[k].id@ == entries[i].id@);
}

proof fn lemma_distinct_ids(entries: Seq<Entry>)
    requires
        distinct(entries),
    ensures
        ids_of(entries).no_duplicates(),
        ids_of(entries).to_set() == model(entries).dom(),
{
    let ids = ids_of(entries);
    assert forall|i: int, j: int| 0 <= i < ids.len() && 0 <= j < ids.len() && i != j implies ids[i]
        != ids[j] by {
        if i < j {
            assert(entries[i].id@ != entries[j].id@);
        } else {
            assert(entries[j].id@ != entries[i].id@);
        }
    }
    assert(ids.to_set() =~= model(entries).dom());
}

proof fn lemma_model_push(entries: Seq<Entry>, entry: Entry)
    requires
        distinct(entries),
        !ids_of(entries).contains(entry.id@),
    ensures
        distinct(entries.push(entry)),
        ids_of(entries.push(entry)) == ids_of(entries).push(entry.id@),
        model(entries.push(entry)) == model(entries).insert(entry.id@, entry.client@),
{
    let after = entries.push(entry);
    assert(ids_of(after) =~= ids_of(entries).push(entry.id@));
    assert forall|i: int, j: int| 0 <= i < j < after.len() implies (#[trigger] after[i]).id@ != (
    #[trigger] after[j]).id@ by {
        if j == entries.len() {
            assert(ids_of(entries)[i] == entries[i].id@);
        } else {
            assert(entries[i].id@ != entries[j].id@);
        }
    }
    let want = model(entries).insert(entry.id@, entry.client@);
    assert forall|id: Seq<char>| model(after).contains_key(id) <==> want.contains_key(id) by {
        if ids_of(after).contains(id) {
            let k = ids_of(after).index_of(id);
            if k < entries.len() {
                assert(ids_of(entries)[k] == id);
            }
        }
        if ids_of(entries).contains(id) {
            let k = ids_of(entries).index_of(id);
            assert(ids_of(after)[k] == id);
        }
        if id == entry.id@ {
            assert(ids_of(after)[entries.len() as int] == id);
        }
    }
    assert forall|id: Seq<char>| model(after).contains_key(id) implies model(after)[id]
        == want[id] by {
        let k = ids_of(after).index_of(id);
        lemma_model_at(after, k);
        if k < entries.len() {
            lemma_model_at(entries, k);
        }
    }
    assert(model(after) =~= want);
}

proof fn lemma_model_update(entries: Seq<Entry>, i: int, entry: Entry)
    requires
        distinct(entries),
        0 <= i < entries.len(),
        entry.id@ == entries[i].id@,
    ensures
        distinct(entries.update(i, entry)),
        ids_of(entries.update(i, entry)) == ids_of(entries),
        model(entries.update(i, entry)) == model(entries).insert(entry.id@, entry.client@),
{
    let after = entries.update(i, entry);
    assert(ids_of(after) =~= ids_of(entries));
    assert forall|a: int, b: int| 0 <= a < b < after.len() implies (#[trigger] after[a]).id@ != (
    #[trigger] after[b]).id@ by {
        assert(entries[a].id@ != entries[b].id@);
    }
    let want = model(entries).insert(entry.id@, entry.client@);
    lemma_model_at(entries, i);
    assert forall|id: Seq<char>| model(after).contains_key(id) implies model(after)[id]
        == want[id] by {
        let k = ids_of(after).index_of(id);
        lemma_model_at(after, k);
        lemma_model_at(entries, k);
    }
    assert(model(after) =~= want);
}

proof fn lemma_model_remove(entries: Seq<Entry>, i: int)
    requires
        distinct(entries),
        0 <= i < entries.len(),
    ensures
        distinct(entries.remove(i)),
        ids_of(entries.remove(i)) == ids_of(entries).remove(i),
        model(entries.remove(i)) == model(entries).remove(entries[i].id@),
{
    let after = entries.remove(i);
    assert(ids_of(after) =~= ids_of(entries).remove(i));
    assert forall|a: int, b: int| 0 <= a < b < after.len() implies (#[trigger] after[a]).id@ != (
    #[trigger] after[b]).id@ by {
        let a0 = if a < i { a } else { a + 1 };
        let b0 = if b < i { b } else { b + 1 };
        assert(after[a] == entries[a0]);
        assert(after[b] == entries[b0]);
        assert(entries[a0].id@ != entries[b0].id@);
    }
    let want = model(entries).remove(entries[i].id@);
    assert forall|id: Seq<char>| model(after).contains_key(id) <==> want.contains_key(id) by {
        if ids_of(after).contains(id) {
            let k = ids_of(after).index_of(id);
            let k0 = if k < i { k } else { k + 1 };
            assert(after[k] == entries[k0]);
            assert(ids_of(entries)[k0] == id);
            if k0 < i {
                assert(entries[k0].id@ != entries[i].id@);
            } else {
                assert(entries[i].id@ != entries[k0].id@);
            }
        }
        if want.contains_key(id) {
            let k0 = ids_of(entries).index_of(id);
            assert(k0 != i);
            let k = if k0 < i { k0 } else { k0 - 1 };
            assert(after[k] == entries[k0]);
            assert(ids_of(after)[k] == id);
        }
    }
    assert forall|id: Seq<char>| model(after).contains_key(id) implies model(after)[id]
        == want[id] by {
        let k = ids_of(after).index_of(id);
        let k0 = if k < i { k } else { k + 1 };
        assert(after[k] == entries[k0]);
        lemma_model_at(after, k);
        lemma_model_at(entries, k0);
    }
    assert(model(after) =~= want);
}

/// The registry of clients.
pub struct Clients {
    entries: Vec<Entry>,
}

/// A registry after the subscriptions of one identity were replaced: the
/// record under that identity has the new groups; a registry without the
/// identity is unchanged.
pub open spec fn after_update(
    registry: Map<Seq<char>, ClientView>,
    id: Seq<char>,
    groups: Seq<Seq<char>>,
) -> Map<Seq<char>, ClientView> {
    if registry.contains_key(id) {
        registry.insert(id, resubscribed(registry[id], groups))
    } else {
        registry
    }
}

impl Clients {
    #[verifier::type_invariant]
    spec fn well_formed(self) -> bool {
        distinct(self.entries@)
    }

    /// The map from identity to record that the registry stands for.
    pub closed spec fn view(&self) -> Map<Seq<char>, ClientView> {
        model(self.entries@)
    }

    /// The identities of the registry in the order of a scan.
    pub closed spec fn ids(&self) -> Seq<Seq<char>> {
        ids_of(self.entries@)
    }

    /// An empty registry.
    pub fn new() -> (clients: Clients)
        ensures
            clients@ == Map::<Seq<char>, ClientView>::empty(),
            clients.ids() == Seq::<Seq<char>>::empty(),
    {
        let clients = Clients { entries: Vec::new() };
        assert(clients@ =~= Map::<Seq<char>, ClientView>::empty());
        assert(clients.ids() =~= Seq::<Seq<char>>::empty());
        clients
    }

    /// The number of identities. A scan visits each identity of the
    /// registry once.
    pub fn len(&self) -> (count: usize)
        ensures
            count == self.ids().len(),
            count == self@.len(),
            self@.dom().finite(),
            self.ids().no_duplicates(),
            self.ids().to_set() == self@.dom(),
    {
        proof {
            use_type_invariant(self);
            lemma_distinct_ids(self.entries@);
            self.ids().unique_seq_to_set();
        }
        self.entries.len()
    }

    fn position(&self, id: &str) -> (found: Option<usize>)
        ensures
            match found {
                Some(i) => i < self.entries@.len() && self.entries@[i as int].id@ == id@,
                None => !ids_of(self.entries@).contains(id@),
            },
    {
        let n: usize = self.entries.len();
        let mut i: usize = 0;
        while i < n
            invariant
                i <= n,
                n == self.entries@.len(),
                forall|k: int| 0 <= k < i ==> self.entries@[k].id@ != id@,
            decreases n - i,
        {
            if same_text(self.entries[i].id.as_str(), id) {
                return Some(i);
            }
            i += 1;
        }
        None
    }

    /// Whether an identity is in the registry.
    pub fn contains_key(&self, id: &str) -> (present: bool)
        ensures
            present == self@.contains_key(id@),
    {
        proof {
            use_type_invariant(self);
        }
        match self.position(id) {
            Some(i) => {
                proof {
                    lemma_model_at(self.entries@, i as int);
                }
                true
            },
            None => false,
        }
    }

    /// The record under an identity.
    pub fn get(&self, id: &str) -> (found: Option<&Client>)
        ensures
            match found {
                Some(client) => self@.contains_key(id@) && client@ == self@[id@],
                None => !self@.contains_key(id@),
            },
    {
        proof {
            use_type_invariant(self);
        }
        match self.position(id) {
            Some(i) => {
                proof {
                    lemma_model_at(self.entries@, i as int);
                }
                Some(&self.entries[i].client)
            },
            None => None,
        }
    }

    /// The identity and the record that a scan visits at a position, or
    /// `None` past the end.
    pub fn nth(&self, position: usize) -> (found: Option<(&str, &Client)>)
        ensures
            match found {
                Some((id, client)) => {
                    &&& position < self.ids().len()
                    &&& id@ == self.ids()[position as int]
                    &&& self@.contains_key(id@)
                    &&& client@ == self@[id@]
                },
                None => position >= self.ids().len(),
            },
    {
        proof {
            use_type_invariant(self);
        }
        if position < self.entries.len() {
            proof {
                lemma_model_at(self.entries@, position as int);
            }
            let entry = &self.entries[position];
            Some((entry.id.as_str(), &entry.client))
        } else {
            None
        }
    }

    /// Puts a record under an identity. A record that was there is
    /// replaced, and keeps its place in a scan; a new identity is visited
    /// last.
    pub fn insert(&mut self, id: String, client: Client)
        ensures
            final(self)@ == old(self)@.insert(id@, client@),
            final(self).ids() == if old(self)@.contains_key(id@) {
                old(self).ids()
            } else {
                old(self).ids().push(id@)
            },
    {
        proof {
            use_type_invariant(&*self);
        }
        let found = self.position(id.as_str());
        let mut entries: Vec<Entry> = Vec::new();
        std::mem::swap(&mut entries, &mut self.entries);
        let entry = Entry { id, client };
        match found {
            Some(i) => {
                proof {
                    lemma_model_at(entries@, i as int);
                    lemma_model_update(entries@, i as int, entry);
                }
                entries.set(i, entry);
            },
            None => {
                proof {
                    lemma_model_push(entries@, entry);
                }
                entries.push(entry);
            },
        }
        self.entries = entries;
    }

    /// Takes an identity out of the registry and returns its record. A
    /// registry without the identity is left as it is.
    pub fn remove(&mut self, id: &str) -> (removed: Option<Client>)
        ensures
            final(self)@ == old(self)@.remove(id@),
            final(self).ids() == old(self).ids().remove_value(id@),
            match removed {
                Some(client) => old(self)@.contains_key(id@) && client@ == old(self)@[id@],
                None => !old(self)@.contains_key(id@),
            },
    {
        proof {
            use_type_invariant(&*self);
        }
        match self.position(id) {
            Some(i) => {
                let mut entries: Vec<Entry> = Vec::new();
                std::mem::swap(&mut entries, &mut self.entries);
                proof {
                    lemma_model_at(entries@, i as int);
                    lemma_model_remove(entries@, i as int);
                    lemma_distinct_ids(entries@);
                    ids_of(entries@).index_of_first_ensures(id@);
                }
                let entry = entries.remove(i);
                self.entries = entries;
                Some(entry.client)
            },
            None => {
                proof {
                    assert(old(self)@.remove(id@) =~= old(self)@);
                    ids_of(self.entries@).index_of_first_ensures(id@);
                }
                None
            },
        }
    }

    /// Replaces the subscriptions of an identity. Returns whether the
    /// identity is in the registry; without it nothing changes.
    pub fn update_groups(&mut self, id: &str, groups: Vec<String>) -> (updated: bool)
        ensures
            updated == old(self)@.contains_key(id@),
            final(self)@ == after_update(old(self)@, id@, groups.deep_view()),
            final(self).ids() == old(self).ids(),
    {
        proof {
            use_type_invariant(&*self);
        }
        match self.position(id) {
            Some(i) => {
                let mut entries: Vec<Entry> = Vec::new();
                std::mem::swap(&mut entries, &mut self.entries);
                proof {
                    lemma_model_at(entries@, i as int);
                }
                let ghost before = entries@;
                let old_entry = entries.remove(i);
                let entry = Entry {
                    id: old_entry.id,
                    client: Client {
                        user_id: old_entry.client.user_id,
                        groups: groups,
                        sender: old_entry.client.sender,
                    },
                };
                entries.insert(i, entry);
                proof {
                    assert(entries@ =~= before.update(i as int, entry));
                    lemma_model_update(before, i as int, entry);
                }
                self.entries = entries;
                true
            },
            None => false,
        }
    }
}

} // verus!
