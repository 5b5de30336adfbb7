//! The client record: who a client is, what it subscribes to, and how to
//! reach it.

use crate::channel::Outbound;
use crate::text::same_text;
use vstd::prelude::*;

verus! {

/// The registration state of one client.
///
/// `topics` lists the subscribed topic names. Neither their order nor a
/// repetition carries meaning: the record subscribes to the set of names
/// that occur in the list. `sender` is the handle to the client's outbound
/// channel, absent until a connection attaches.
#[derive(Debug, Clone)]
pub struct Client {
    pub user_id: usize,
    pub topics: Vec<String>,
    pub sender: Option<Outbound>,
}

/// A client record as contracts see it: the topics as a set.
pub struct ClientView {
    pub user_id: usize,
    pub topics: Set<Seq<char>>,
    pub sender: Option<Outbound>,
}

/// The set of names that occur in a list of topics.
pub open spec fn topic_set(topics: Seq<String>) -> Set<Seq<char>> {
    Set::new(|name: Seq<char>| exists|i: int| 0 <= i < topics.len() && #[trigger] topics[i]@ == name)
}

impl View for Client {
    type V = ClientView;

    open spec fn view(&self) -> ClientView {
        ClientView { user_id: self.user_id, topics: topic_set(self.topics@), sender: self.sender }
    }
}

impl ClientView {
    /// Whether the record subscribes to `topic`.
    pub open spec fn subscribes_to(self, topic: Seq<char>) -> bool {
        self.topics.contains(topic)
    }

    /// Whether a connection is attached to the record.
    pub open spec fn connected(self) -> bool {
        self.sender.is_some()
    }

    /// Whether a payload published to `topic` is dispatched to the record.
    pub open spec fn receives(self, topic: Seq<char>) -> bool {
        self.subscribes_to(topic) && self.connected()
    }
}

impl Client {
    /// A record for a newly registered client: the topics as supplied, and
    /// no connection yet.
    pub fn new(user_id: usize, topics: Vec<String>) -> (client: Client)
        ensures
            client.user_id == user_id,
            client.topics == topics,
            client.sender.is_none(),
    {
        Client { user_id, topics, sender: None }
    }

    /// Whether the record subscribes to `topic`.
    pub fn subscribes_to(&self, topic: &str) -> (found: bool)
        ensures
            found == self@.subscribes_to(topic@),
    {
        let mut i: usize = 0;
        while i < self.topics.len()
            invariant
                i <= self.topics.len(),
                forall|k: int| 0 <= k < i ==> self.topics[k]@ != topic@,
            decreases self.topics.len() - i,
        {
            if same_text(self.topics[i].as_str(), topic) {
                return true;
            }
            i += 1;
        }
        false
    }

    /// Whether a connection is attached to the record.
    pub fn is_connected(&self) -> (connected: bool)
        ensures
            connected == self@.connected(),
    {
        self.sender.is_some()
    }

    /// Subscribes the record to `topic`. A record that already subscribes
    /// to it is left as it is.
    pub fn add_topic(&mut self, topic: String)
        ensures
            final(self)@.topics == old(self)@.topics.insert(topic@),
            final(self).user_id == old(self).user_id,
            final(self).sender == old(self).sender,
            old(self)@.subscribes_to(topic@) ==> *final(self) == *old(self),
            !old(self)@.subscribes_to(topic@) ==> final(self).topics@ == old(self).topics@.push(
                topic,
            ),
    {
        if !self.subscribes_to(topic.as_str()) {
            let ghost before = self.topics@;
            self.topics.push(topic);
            assert forall|name: Seq<char>|
                topic_set(self.topics@).contains(name) == topic_set(before).insert(
                    topic@,
                ).contains(name) by {
                if topic_set(self.topics@).contains(name) {
                    let i = choose|i: int|
                        0 <= i < self.topics@.len() && #[trigger] self.topics@[i]@ == name;
                    if i < before.len() {
                        assert(before[i]@ == name);
                    }
                }
                if topic_set(before).contains(name) {
                    let i = choose|i: int| 0 <= i < before.len() && #[trigger] before[i]@ == name;
                    assert(self.topics@[i]@ == name);
                }
                if name == topic@ {
                    assert(self.topics@[before.len() as int]@ == name);
                }
            }
            assert(topic_set(self.topics@) =~= topic_set(before).insert(topic@));
        } else {
            assert(topic_set(self.topics@) =~= topic_set(self.topics@).insert(topic@));
        }
    }

    /// Ends the record's subscription to `topic`, however often the name
    /// occurs in the list. A record that does not subscribe to it is left
    /// as it is.
    pub fn remove_topic(&mut self, topic: &str)
        ensures
            final(self)@.topics == old(self)@.topics.remove(topic@),
            final(self).user_id == old(self).user_id,
            final(self).sender == old(self).sender,
            !old(self)@.subscribes_to(topic@) ==> *final(self) == *old(self),
    {
        let mut i: usize = 0;
        while i < self.topics.len()
            invariant
                i <= self.topics.len(),
                self.user_id == old(self).user_id,
                self.sender == old(self).sender,
                forall|k: int| 0 <= k < i ==> self.topics[k]@ != topic@,
                topic_set(self.topics@).remove(topic@) == topic_set(old(self).topics@).remove(
                    topic@,
                ),
                !topic_set(old(self).topics@).contains(topic@) ==> *self == *old(self),
            decreases self.topics.len() - i,
        {
            if same_text(self.topics[i].as_str(), topic) {
                let ghost before = self.topics@;
                assert(topic_set(before).contains(topic@));
                self.topics.remove(i);
                assert forall|name: Seq<char>|
                    topic_set(self.topics@).remove(topic@).contains(name) == topic_set(
                        before,
                    ).remove(topic@).contains(name) by {
                    if name != topic@ && topic_set(self.topics@).contains(name) {
                        let j = choose|j: int|
                            0 <= j < self.topics@.len() && #[trigger] self.topics@[j]@ == name;
                        if j < i {
                            assert(before[j]@ == name);
                        } else {
                            assert(before[j + 1]@ == name);
                        }
                    }
                    if name != topic@ && topic_set(before).contains(name) {
                        let j = choose|j: int| 0 <= j < before.len() && #[trigger] before[j]@ == name;
                        if j < i {
                            assert(self.topics@[j]@ == name);
                        } else {
                            assert(self.topics@[j - 1]@ == name);
                        }
                    }
                }
                assert(topic_set(self.topics@).remove(topic@) =~= topic_set(before).remove(topic@));
            } else {
                i += 1;
            }
        }
        proof {
            let kept = topic_set(self.topics@);
            if kept.contains(topic@) {
                let j = choose|j: int|
                    0 <= j < self.topics@.len() && #[trigger] self.topics@[j]@ == topic@;
                assert(false);
            }
            assert(kept =~= kept.remove(topic@));
        }
    }
}

} // verus!
