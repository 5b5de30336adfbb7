//! The client registry: the mapping from client identifier to client
//! record, and the operations that read and change it.
//!
//! A registry is a plain value. Sharing it between tasks, and the lock
//! that guards it, are the caller's: every operation here runs to its end
//! without waiting, so a lock is held only for the time of the call.

use crate::channel::Outbound;
use crate::client::{topic_set, Client, ClientView};
use crate::error::RegistryError;
use crate::model::{
    after_add_topic, after_attach, after_register, after_removal, after_remove_topic,
    lookup_outcome, register_outcome, subscribers, unregister_outcome, Directory,
};
use crate::text::same_text;
use vstd::prelude::*;

verus! {

/// One record together with the identifier it is registered under.
struct Entry {
    client_id: String,
    client: Client,
}

/// The registry of clients. No identifier is registered twice.
pub struct Registry {
    entries: Vec<Entry>,
}

/// Whether some entry is registered under `id`.
spec fn listed(entries: Seq<Entry>, id: Seq<char>) -> bool {
    exists|i: int| 0 <= i < entries.len() && #[trigger] entries[i].client_id@ == id
}

/// The position of the entry registered under `id`.
spec fn slot(entries: Seq<Entry>, id: Seq<char>) -> int {
    choose|i: int| 0 <= i < entries.len() && #[trigger] entries[i].client_id@ == id
}

/// Whether no two entries share an identifier.
spec fn distinct(entries: Seq<Entry>) -> bool {
    forall|i: int, j: int|
        0 <= i < j < entries.len() ==> #[trigger] entries[i].client_id@
            != #[trigger] entries[j].client_id@
}

/// The directory that a list of entries stands for.
spec fn directory(entries: Seq<Entry>) -> Directory {
    Map::new(|id: Seq<char>| listed(entries, id), |id: Seq<char>| entries[slot(entries, id)].client@)
}

/// In a list without repeated identifiers, an identifier leads back to the
/// entry that carries it.
proof fn lemma_slot(entries: Seq<Entry>, i: int)
    requires
        distinct(entries),
        0 <= i < entries.len(),
    ensures
        listed(entries, entries[i].client_id@),
        slot(entries, entries[i].client_id@) == i,
        directory(entries).contains_key(entries[i].client_id@),
        directory(entries)[entries[i].client_id@] == entries[i].client@,
{
    let id = entries[i].client_id@;
    let j = slot(entries, id);
    assert(0 <= j < entries.len() && entries[j].client_id@ == id);
    if j < i {
        assert(entries[j].client_id@ != entries[i].client_id@);
    } else if i < j {
        assert(entries[i].client_id@ != entries[j].client_id@);
    }
}

/// The identifiers of a list of entries, in its order.
spec fn identifiers(entries: Seq<Entry>) -> Seq<Seq<char>> {
    entries.map_values(|e: Entry| e.client_id@)
}

/// The domain of the directory is the set of the entries' identifiers, and
/// a list without repeated identifiers lists each once.
proof fn lemma_domain(entries: Seq<Entry>)
    ensures
        identifiers(entries).to_set() == directory(entries).dom(),
        distinct(entries) ==> identifiers(entries).no_duplicates(),
{
    let ids = identifiers(entries);
    assert forall|id: Seq<char>| ids.to_set().contains(id) == directory(entries).dom().contains(
        id,
    ) by {
        if ids.to_set().contains(id) {
            let i = choose|i: int| 0 <= i < ids.len() && ids[i] == id;
            assert(entries[i].client_id@ == id);
        }
        if directory(entries).dom().contains(id) {
            let i = slot(entries, id);
            assert(ids[i] == id);
        }
    }
    assert(ids.to_set() =~= directory(entries).dom());
    if distinct(entries) {
        assert forall|i: int, j: int|
            0 <= i < ids.len() && 0 <= j < ids.len() && i != j implies ids[i] != ids[j] by {
            if i < j {
                assert(entries[i].client_id@ != entries[j].client_id@);
            } else {
                assert(entries[j].client_id@ != entries[i].client_id@);
            }
        }
    }
}

/// Appending an entry under an identifier that is not yet listed adds that
/// identifier to the directory and leaves the rest as it was.
proof fn lemma_push(before: Seq<Entry>, entry: Entry)
    requires
        distinct(before),
        !listed(before, entry.client_id@),
    ensures
        distinct(before.push(entry)),
        directory(before.push(entry)) == directory(before).insert(
            entry.client_id@,
            entry.client@,
        ),
{
    let after = before.push(entry);
    let id = entry.client_id@;
    assert forall|i: int, j: int| 0 <= i < j < after.len() implies #[trigger] after[i].client_id@
        != #[trigger] after[j].client_id@ by {
        if j < before.len() {
            assert(before[i].client_id@ != before[j].client_id@);
        } else {
            assert(before[i].client_id@ != id);
        }
    }
    assert forall|other: Seq<char>| listed(after, other) == (listed(before, other) || other
        == id) by {
        if listed(after, other) {
            let i = slot(after, other);
            if i < before.len() {
                assert(before[i].client_id@ == other);
            }
        }
        if listed(before, other) {
            let i = slot(before, other);
            assert(after[i].client_id@ == other);
        }
        if other == id {
            assert(after[before.len() as int].client_id@ == other);
        }
    }
    assert forall|other: Seq<char>| listed(after, other) implies directory(after)[other]
        == directory(before).insert(id, entry.client@)[other] by {
        let i = slot(after, other);
        lemma_slot(after, i);
        if i < before.len() {
            assert(before[i] == after[i]);
            lemma_slot(before, i);
        }
    }
    assert(directory(after) =~= directory(before).insert(id, entry.client@));
}

/// Taking an entry out removes its identifier from the directory and
/// leaves the rest as it was.
proof fn lemma_remove(before: Seq<Entry>, i: int)
    requires
        distinct(before),
        0 <= i < before.len(),
    ensures
        distinct(before.remove(i)),
        directory(before.remove(i)) == directory(before).remove(before[i].client_id@),
{
    let after = before.remove(i);
    let id = before[i].client_id@;
    assert forall|j: int| 0 <= j < after.len() implies #[trigger] after[j] == before[if j < i {
        j
    } else {
        j + 1
    }] by {}
    assert forall|j: int, k: int| 0 <= j < k < after.len() implies #[trigger] after[j].client_id@
        != #[trigger] after[k].client_id@ by {
        let bj = if j < i {
            j
        } else {
            j + 1
        };
        let bk = if k < i {
            k
        } else {
            k + 1
        };
        assert(before[bj].client_id@ != before[bk].client_id@);
    }
    assert forall|other: Seq<char>| listed(after, other) == (listed(before, other) && other
        != id) by {
        if listed(after, other) {
            let j = slot(after, other);
            let bj = if j < i {
                j
            } else {
                j + 1
            };
            assert(before[bj].client_id@ == other);
            lemma_slot(before, bj);
            lemma_slot(before, i);
        }
        if listed(before, other) && other != id {
            let j = slot(before, other);
            let aj = if j < i {
                j
            } else {
                j - 1
            };
            assert(after[aj].client_id@ == other);
        }
    }
    assert forall|other: Seq<char>| listed(after, other) implies directory(after)[other]
        == directory(before)[other] by {
        let j = slot(after, other);
        lemma_slot(after, j);
        let bj = if j < i {
            j
        } else {
            j + 1
        };
        lemma_slot(before, bj);
    }
    assert(directory(after) =~= directory(before).remove(id));
}

/// Replacing the record of one entry, under the same identifier, replaces
/// that identifier's record in the directory and leaves the rest as it was.
proof fn lemma_update(before: Seq<Entry>, i: int, entry: Entry)
    requires
        distinct(before),
        0 <= i < before.len(),
        entry.client_id@ == before[i].client_id@,
    ensures
        distinct(before.update(i, entry)),
        directory(before.update(i, entry)) == directory(before).insert(
            entry.client_id@,
            entry.client@,
        ),
{
    let after = before.update(i, entry);
    let id = entry.client_id@;
    assert forall|j: int| 0 <= j < after.len() implies #[trigger] after[j].client_id@
        == before[j].client_id@ by {}
    assert forall|j: int, k: int| 0 <= j < k < after.len() implies #[trigger] after[j].client_id@
        != #[trigger] after[k].client_id@ by {
        assert(before[j].client_id@ != before[k].client_id@);
    }
    assert forall|other: Seq<char>| listed(after, other) == listed(before, other) by {
        if listed(after, other) {
            let j = slot(after, other);
            assert(before[j].client_id@ == other);
        }
        if listed(before, other) {
            let j = slot(before, other);
            assert(after[j].client_id@ == other);
        }
    }
    lemma_slot(before, i);
    assert forall|other: Seq<char>| listed(after, other) implies directory(after)[other]
        == directory(before).insert(id, entry.client@)[other] by {
        let j = slot(after, other);
        lemma_slot(after, j);
        lemma_slot(before, j);
    }
    assert(directory(after) =~= directory(before).insert(id, entry.client@));
}

/// One target of a fan-out: a client, and a handle to its channel that
/// stays usable after the registry has changed or has been unlocked.
pub struct Subscriber {
    pub client_id: String,
    pub sender: Outbound,
}

/// Whether `list` is a snapshot of the subscribers of `topic` in `d`: it
/// names each client that subscribes to the topic and is connected, names
/// it once, names no other, and carries for each a clone of the client's
/// own handle.
pub open spec fn is_snapshot(list: Seq<Subscriber>, d: Directory, topic: Seq<char>) -> bool {
    &&& forall|k: int|
        0 <= k < list.len() ==> {
            &&& subscribers(d, topic).contains(#[trigger] list[k].client_id@)
            &&& cloned(d[list[k].client_id@].sender.unwrap(), list[k].sender)
        }
    &&& forall|id: Seq<char>| #[trigger]
        subscribers(d, topic).contains(id) ==> exists|k: int|
            0 <= k < list.len() && #[trigger] list[k].client_id@ == id
    &&& forall|j: int, k: int|
        0 <= j < k < list.len() ==> #[trigger] list[j].client_id@ != #[trigger] list[k].client_id@
}

/// A snapshot has as many members as the topic has subscribers.
pub proof fn lemma_snapshot_len(list: Seq<Subscriber>, d: Directory, topic: Seq<char>)
    requires
        is_snapshot(list, d, topic),
    ensures
        subscribers(d, topic).finite(),
        list.len() == subscribers(d, topic).len(),
{
    let ids = list.map_values(|s: Subscriber| s.client_id@);
    assert forall|j: int, k: int| 0 <= j < ids.len() && 0 <= k < ids.len() && j != k implies ids[j]
        != ids[k] by {
        if j < k {
            assert(list[j].client_id@ != list[k].client_id@);
        } else {
            assert(list[k].client_id@ != list[j].client_id@);
        }
    }
    assert forall|id: Seq<char>| ids.to_set().contains(id) == subscribers(d, topic).contains(
        id,
    ) by {
        if ids.to_set().contains(id) {
            let k = choose|k: int| 0 <= k < ids.len() && ids[k] == id;
            assert(list[k].client_id@ == id);
        }
        if subscribers(d, topic).contains(id) {
            let k = choose|k: int| 0 <= k < list.len() && #[trigger] list[k].client_id@ == id;
            assert(ids[k] == id);
        }
    }
    assert(ids.to_set() =~= subscribers(d, topic));
    vstd::seq_lib::seq_to_set_is_finite(ids);
    ids.unique_seq_to_set();
}

impl View for Registry {
    type V = Directory;

    closed spec fn view(&self) -> Directory {
        directory(self.entries@)
    }
}

impl Registry {
    #[verifier::type_invariant]
    spec fn well_formed(self) -> bool {
        distinct(self.entries@)
    }

    /// An empty registry.
    pub fn new() -> (registry: Registry)
        ensures
            registry@ == Map::<Seq<char>, ClientView>::empty(),
    {
        let registry = Registry { entries: Vec::new() };
        assert(registry@ =~= Map::<Seq<char>, ClientView>::empty());
        registry
    }

    /// Moves the entries out, leaving the registry empty until they are put
    /// back.
    fn take_entries(&mut self) -> (entries: Vec<Entry>)
        ensures
            entries == old(self).entries,
            final(self).entries@.len() == 0,
    {
        let mut entries: Vec<Entry> = Vec::new();
        std::mem::swap(&mut entries, &mut self.entries);
        entries
    }

    /// Where the entry of `client_id` stands, if the registry holds one.
    fn position(&self, client_id: &str) -> (found: Option<usize>)
        ensures
            match found {
                Some(i) => i < self.entries.len() && self.entries[i as int].client_id@
                    == client_id@,
                None => !listed(self.entries@, client_id@),
            },
    {
        let mut i: usize = 0;
        while i < self.entries.len()
            invariant
                i <= self.entries.len(),
                forall|k: int| 0 <= k < i ==> self.entries[k].client_id@ != client_id@,
            decreases self.entries.len() - i,
        {
            if same_text(self.entries[i].client_id.as_str(), client_id) {
                return Some(i);
            }
            i += 1;
        }
        None
    }

    /// Whether the registry holds a record of `client_id`.
    pub fn contains(&self, client_id: &str) -> (present: bool)
        ensures
            present == self@.contains_key(client_id@),
    {
        self.position(client_id).is_some()
    }

    /// Registers a client under `client_id`, with the given topics and no
    /// connection. An identifier that is already registered is rejected,
    /// and the record it names stays as it is.
    pub fn register(&mut self, client_id: String, user_id: usize, topics: Vec<String>) -> (outcome:
        Result<(), RegistryError>)
        ensures
            outcome == register_outcome(old(self)@, client_id@),
            final(self)@ == after_register(
                old(self)@,
                client_id@,
                user_id,
                topic_set(topics@),
            ),
    {
        proof {
            use_type_invariant(&*self);
        }
        match self.position(client_id.as_str()) {
            Some(_) => Err(RegistryError::AlreadyRegistered),
            None => {
                let ghost before = self.entries@;
                let entry = Entry { client_id, client: Client::new(user_id, topics) };
                let mut entries = self.take_entries();
                proof {
                    lemma_push(before, entry);
                }
                entries.push(entry);
                self.entries = entries;
                Ok(())
            },
        }
    }

    /// Attaches a connection to the record of `client_id`: from now on
    /// payloads for the client go to `sender`, and a handle attached
    /// earlier is dropped. Fails when the client is not registered; a
    /// client has to register before it connects.
    pub fn attach(&mut self, client_id: &str, sender: Outbound) -> (outcome: Result<
        (),
        RegistryError,
    >)
        ensures
            outcome == lookup_outcome(old(self)@, client_id@),
            final(self)@ == after_attach(old(self)@, client_id@, sender),
    {
        proof {
            use_type_invariant(&*self);
        }
        match self.position(client_id) {
            None => Err(RegistryError::UnknownClient),
            Some(i) => {
                let mut entries = self.take_entries();
                let ghost before = entries@;
                entries[i].client.sender = Some(sender);
                proof {
                    lemma_slot(before, i as int);
                    assert(entries@ =~= before.update(i as int, entries@[i as int]));
                    lemma_update(before, i as int, entries@[i as int]);
                }
                self.entries = entries;
                Ok(())
            },
        }
    }

    /// Takes the record of `client_id` out of the registry, with its
    /// handle. Says whether there was one.
    fn remove_record(&mut self, client_id: &str) -> (removed: bool)
        ensures
            removed == old(self)@.contains_key(client_id@),
            final(self)@ == after_removal(old(self)@, client_id@),
    {
        proof {
            use_type_invariant(&*self);
        }
        match self.position(client_id) {
            None => {
                assert(self@ =~= self@.remove(client_id@));
                false
            },
            Some(i) => {
                let mut entries = self.take_entries();
                proof {
                    lemma_remove(entries@, i as int);
                }
                entries.remove(i);
                self.entries = entries;
                true
            },
        }
    }

    /// Removes the record of `client_id`. After it no payload is dispatched
    /// to the client, whether or not its connection is still open. Fails
    /// when the client is not registered.
    pub fn unregister(&mut self, client_id: &str) -> (outcome: Result<(), RegistryError>)
        ensures
            outcome == unregister_outcome(old(self)@, client_id@),
            final(self)@ == after_removal(old(self)@, client_id@),
    {
        if self.remove_record(client_id) {
            Ok(())
        } else {
            Err(RegistryError::NotFound)
        }
    }

    /// Ends the connection of `client_id`. A disconnection ends the
    /// registration: the record is removed together with its handle, and
    /// the client has to register again before it reconnects. Fails when
    /// the client is not registered.
    pub fn detach(&mut self, client_id: &str) -> (outcome: Result<(), RegistryError>)
        ensures
            outcome == lookup_outcome(old(self)@, client_id@),
            final(self)@ == after_removal(old(self)@, client_id@),
    {
        if self.remove_record(client_id) {
            Ok(())
        } else {
            Err(RegistryError::UnknownClient)
        }
    }

    /// Subscribes the client to `topic`. Nothing changes when it already
    /// subscribes to it. Fails when the client is not registered.
    pub fn add_topic(&mut self, client_id: &str, topic: String) -> (outcome: Result<
        (),
        RegistryError,
    >)
        ensures
            outcome == lookup_outcome(old(self)@, client_id@),
            final(self)@ == after_add_topic(old(self)@, client_id@, topic@),
    {
        proof {
            use_type_invariant(&*self);
        }
        match self.position(client_id) {
            None => Err(RegistryError::UnknownClient),
            Some(i) => {
                let mut entries = self.take_entries();
                let ghost before = entries@;
                entries[i].client.add_topic(topic);
                proof {
                    lemma_slot(before, i as int);
                    assert(entries@ =~= before.update(i as int, entries@[i as int]));
                    lemma_update(before, i as int, entries@[i as int]);
                }
                self.entries = entries;
                Ok(())
            },
        }
    }

    /// Ends the client's subscription to `topic`. Nothing changes when it
    /// does not subscribe to it. Fails when the client is not registered.
    pub fn remove_topic(&mut self, client_id: &str, topic: &str) -> (outcome: Result<
        (),
        RegistryError,
    >)
        ensures
            outcome == lookup_outcome(old(self)@, client_id@),
            final(self)@ == after_remove_topic(old(self)@, client_id@, topic@),
    {
        proof {
            use_type_invariant(&*self);
        }
        match self.position(client_id) {
            None => Err(RegistryError::UnknownClient),
            Some(i) => {
                let mut entries = self.take_entries();
                let ghost before = entries@;
                entries[i].client.remove_topic(topic);
                proof {
                    lemma_slot(before, i as int);
                    assert(entries@ =~= before.update(i as int, entries@[i as int]));
                    lemma_update(before, i as int, entries@[i as int]);
                }
                self.entries = entries;
                Ok(())
            },
        }
    }

    /// The record of `client_id`, if the registry holds one.
    pub fn get(&self, client_id: &str) -> (found: Option<&Client>)
        ensures
            match found {
                Some(client) => self@.contains_key(client_id@) && client@ == self@[client_id@],
                None => !self@.contains_key(client_id@),
            },
    {
        proof {
            use_type_invariant(&*self);
        }
        match self.position(client_id) {
            None => None,
            Some(i) => {
                proof {
                    lemma_slot(self.entries@, i as int);
                }
                Some(&self.entries[i].client)
            },
        }
    }

    /// The subscribers of `topic` at this moment: each client that
    /// subscribes to it and has a connection attached, once, with a clone
    /// of its handle. The list shares nothing with the registry, so the
    /// sends that follow need no access to it.
    pub fn snapshot_subscribers(&self, topic: &str) -> (list: Vec<Subscriber>)
        ensures
            is_snapshot(list@, self@, topic@),
            list.len() == subscribers(self@, topic@).len(),
    {
        proof {
            use_type_invariant(&*self);
        }
        let mut list: Vec<Subscriber> = Vec::new();
        let ghost mut picks: Seq<int> = Seq::empty();
        let mut i: usize = 0;
        while i < self.entries.len()
            invariant
                i <= self.entries.len(),
                distinct(self.entries@),
                picks.len() == list.len(),
                forall|k: int|
                    0 <= k < picks.len() ==> {
                        &&& 0 <= #[trigger] picks[k] < i
                        &&& list[k].client_id@ == self.entries[picks[k]].client_id@
                        &&& self.entries[picks[k]].client@.receives(topic@)
                        &&& cloned(self.entries[picks[k]].client.sender.unwrap(), list[k].sender)
                    },
                forall|j: int, k: int| 0 <= j < k < picks.len() ==> picks[j] < picks[k],
                forall|j: int|
                    0 <= j < i && (#[trigger] self.entries[j]).client@.receives(topic@)
                        ==> exists|k: int| 0 <= k < picks.len() && picks[k] == j,
            decreases self.entries.len() - i,
        {
            let entry = &self.entries[i];
            if entry.client.subscribes_to(topic) {
                if let Some(handle) = &entry.client.sender {
                    let subscriber = Subscriber {
                        client_id: entry.client_id.clone(),
                        sender: handle.clone(),
                    };
                    list.push(subscriber);
                    proof {
                        let earlier = picks;
                        picks = picks.push(i as int);
                        assert forall|j: int|
                            0 <= j < i + 1 && (#[trigger] self.entries[j]).client@.receives(
                                topic@,
                            ) implies exists|k: int| 0 <= k < picks.len() && picks[k] == j by {
                            if j < i {
                                let k = choose|k: int| 0 <= k < earlier.len() && earlier[k] == j;
                                assert(picks[k] == j);
                            } else {
                                assert(picks[earlier.len() as int] == j);
                            }
                        }
                    }
                }
            }
            i += 1;
        }
        proof {
            let entries = self.entries@;
            assert forall|k: int| 0 <= k < list.len() implies {
                &&& subscribers(self@, topic@).contains(#[trigger] list[k].client_id@)
                &&& cloned(self@[list[k].client_id@].sender.unwrap(), list[k].sender)
            } by {
                lemma_slot(entries, picks[k]);
            }
            assert forall|id: Seq<char>| #[trigger]
                subscribers(self@, topic@).contains(id) implies exists|k: int|
                0 <= k < list.len() && #[trigger] list[k].client_id@ == id by {
                let j = slot(entries, id);
                lemma_slot(entries, j);
                let k = choose|k: int| 0 <= k < picks.len() && picks[k] == j;
                assert(list[k].client_id@ == id);
            }
            assert forall|j: int, k: int| 0 <= j < k < list.len() implies #[trigger] list[j].client_id@
                != #[trigger] list[k].client_id@ by {
                assert(picks[j] < picks[k]);
                assert(entries[picks[j]].client_id@ != entries[picks[k]].client_id@);
            }
            lemma_snapshot_len(list@, self@, topic@);
        }
        list
    }

    /// The content of a registry is a finite map.
    pub proof fn lemma_finite(self)
        ensures
            self@.dom().finite(),
    {
        lemma_domain(self.entries@);
        vstd::seq_lib::seq_to_set_is_finite(identifiers(self.entries@));
    }

    /// The number of registered clients.
    pub fn len(&self) -> (count: usize)
        ensures
            self@.dom().finite(),
            count == self@.len(),
    {
        proof {
            use_type_invariant(&*self);
            self.lemma_finite();
            lemma_domain(self.entries@);
            identifiers(self.entries@).unique_seq_to_set();
        }
        self.entries.len()
    }

    /// Whether no client is registered.
    pub fn is_empty(&self) -> (empty: bool)
        ensures
            empty == (self@ == Map::<Seq<char>, ClientView>::empty()),
    {
        proof {
            if self.entries@.len() == 0 {
                assert(self@ =~= Map::<Seq<char>, ClientView>::empty());
            } else {
                assert(self.entries@[0].client_id@ == self.entries@[0].client_id@);
                assert(listed(self.entries@, self.entries@[0].client_id@));
                assert(self@.contains_key(self.entries@[0].client_id@));
            }
        }
        self.entries.len() == 0
    }
}

} // verus!
