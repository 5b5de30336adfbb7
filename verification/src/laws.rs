//! What holds of the hub whatever the order of requests: statements over
//! the directory and the connection states that the operations' contracts
//! are written in.

use crate::channel::Outbound;
use crate::error::RegistryError;
use crate::lifecycle::{
    action_after_open, cleans_up, state_after, state_after_open, Action, ConnectionState, Signal,
};
use crate::model::{
    after_add_topic, after_attach, after_register, after_removal, after_remove_topic,
    register_outcome, subscribers, unregister_outcome, Directory,
};
use crate::registry::{is_snapshot, Subscriber};
use vstd::prelude::*;

verus! {

/// A request that adds a client to a registry or takes one out.
pub enum Request {
    Register { client_id: Seq<char>, user_id: usize, topics: Set<Seq<char>> },
    Unregister { client_id: Seq<char> },
}

impl Request {
    /// Whether the request registers `id`.
    pub open spec fn registers(self, id: Seq<char>) -> bool {
        self matches Request::Register { client_id, .. } && client_id == id
    }

    /// Whether the request unregisters `id`.
    pub open spec fn unregisters(self, id: Seq<char>) -> bool {
        self matches Request::Unregister { client_id } && client_id == id
    }
}

/// The directory after one request.
pub open spec fn served(d: Directory, request: Request) -> Directory {
    match request {
        Request::Register { client_id, user_id, topics } => after_register(
            d,
            client_id,
            user_id,
            topics,
        ),
        Request::Unregister { client_id } => after_removal(d, client_id),
    }
}

/// The directory after a sequence of requests, served in order.
pub open spec fn served_all(d: Directory, requests: Seq<Request>) -> Directory
    decreases requests.len(),
{
    if requests.len() == 0 {
        d
    } else {
        served(served_all(d, requests.drop_last()), requests.last())
    }
}

/// Whether `id` has been registered by one of the requests and not been
/// unregistered by a later one.
pub open spec fn live(requests: Seq<Request>, id: Seq<char>) -> bool {
    exists|i: int|
        0 <= i < requests.len() && (#[trigger] requests[i]).registers(id) && forall|j: int|
            i < j < requests.len() ==> !(#[trigger] requests[j]).unregisters(id)
}

/// Whether none of the requests unregisters `id`.
pub open spec fn untouched(requests: Seq<Request>, id: Seq<char>) -> bool {
    forall|j: int| 0 <= j < requests.len() ==> !(#[trigger] requests[j]).unregisters(id)
}

/// After any sequence of registrations and unregistrations, a registry
/// holds exactly the clients that have been registered and not
/// unregistered since, together with those that it held at the start and
/// that no request has unregistered.
pub proof fn lemma_registry_follows_the_requests(
    d: Directory,
    requests: Seq<Request>,
    id: Seq<char>,
)
    ensures
        served_all(d, requests).contains_key(id) <==> live(requests, id) || (d.contains_key(id)
            && untouched(requests, id)),
    decreases requests.len(),
{
    if requests.len() == 0 {
    } else {
        let earlier = requests.drop_last();
        let last = requests.last();
        let n = earlier.len() as int;
        lemma_registry_follows_the_requests(d, earlier, id);
        assert(requests[n] == last);
        assert forall|j: int| 0 <= j < n implies requests[j] == earlier[j] by {}
        if last.unregisters(id) {
            if live(requests, id) {
                let i = choose|i: int|
                    0 <= i < requests.len() && (#[trigger] requests[i]).registers(id) && forall|
                        j: int,
                    |
                        i < j < requests.len() ==> !(#[trigger] requests[j]).unregisters(id);
                assert(!requests[n].unregisters(id));
            }
            if untouched(requests, id) {
                assert(!requests[n].unregisters(id));
            }
        } else if last.registers(id) {
            assert(requests[n].registers(id));
        } else {
            if live(earlier, id) {
                let i = choose|i: int|
                    0 <= i < earlier.len() && (#[trigger] earlier[i]).registers(id) && forall|
                        j: int,
                    |
                        i < j < earlier.len() ==> !(#[trigger] earlier[j]).unregisters(id);
                assert(requests[i] == earlier[i]);
                assert forall|j: int| i < j < requests.len() implies !(
                #[trigger] requests[j]).unregisters(id) by {
                    if j < n {
                        assert(requests[j] == earlier[j]);
                    }
                }
            }
            if live(requests, id) {
                let i = choose|i: int|
                    0 <= i < requests.len() && (#[trigger] requests[i]).registers(id) && forall|
                        j: int,
                    |
                        i < j < requests.len() ==> !(#[trigger] requests[j]).unregisters(id);
                assert(i < n);
                assert(earlier[i] == requests[i]);
                assert forall|j: int| i < j < earlier.len() implies !(
                #[trigger] earlier[j]).unregisters(id) by {
                    assert(requests[j] == earlier[j]);
                }
            }
            if untouched(earlier, id) {
                assert forall|j: int| 0 <= j < requests.len() implies !(
                #[trigger] requests[j]).unregisters(id) by {
                    if j < n {
                        assert(requests[j] == earlier[j]);
                        assert(!earlier[j].unregisters(id));
                    }
                }
            }
            if untouched(requests, id) {
                assert forall|j: int| 0 <= j < earlier.len() implies !(
                #[trigger] earlier[j]).unregisters(id) by {
                    assert(requests[j] == earlier[j]);
                    assert(!requests[j].unregisters(id));
                }
            }
        }
    }
}

/// After any sequence of registrations and unregistrations, served from
/// an empty registry, the registry holds exactly the clients that have
/// been registered and not unregistered since.
pub proof fn lemma_registry_holds_the_live_clients(requests: Seq<Request>, id: Seq<char>)
    ensures
        served_all(Map::empty(), requests).contains_key(id) <==> live(requests, id),
{
    lemma_registry_follows_the_requests(Map::empty(), requests, id);
}

/// Removal is idempotent: once a client is unregistered, a second
/// unregistration reports that there is no such client, and changes
/// nothing.
pub proof fn lemma_second_unregistration_finds_nothing(d: Directory, id: Seq<char>)
    ensures
        unregister_outcome(after_removal(d, id), id) == Err::<(), RegistryError>(
            RegistryError::NotFound,
        ),
        after_removal(after_removal(d, id), id) == after_removal(d, id),
{
    assert(after_removal(after_removal(d, id), id) =~= after_removal(d, id));
}

/// A registration is rejected exactly while its identifier is taken: a
/// second registration under the same identifier changes nothing, and
/// after an unregistration the identifier is free again.
pub proof fn lemma_identifier_is_registered_once(
    d: Directory,
    id: Seq<char>,
    user_id: usize,
    topics: Set<Seq<char>>,
)
    ensures
        register_outcome(after_register(d, id, user_id, topics), id) == Err::<(), RegistryError>(
            RegistryError::AlreadyRegistered,
        ),
        forall|other_user: usize, other_topics: Set<Seq<char>>|
            after_register(
                #[trigger] after_register(d, id, other_user, other_topics),
                id,
                user_id,
                topics,
            ) == after_register(d, id, other_user, other_topics),
        register_outcome(after_removal(d, id), id) == Ok::<(), RegistryError>(()),
{
}

/// A removed client is no subscriber of any topic, so nothing published
/// afterwards is dispatched to it; the subscribers among the other clients
/// stay the same.
pub proof fn lemma_removed_client_receives_nothing(d: Directory, id: Seq<char>, topic: Seq<char>)
    ensures
        !subscribers(after_removal(d, id), topic).contains(id),
        subscribers(after_removal(d, id), topic) == subscribers(d, topic).remove(id),
{
    assert(subscribers(after_removal(d, id), topic) =~= subscribers(d, topic).remove(id));
}

/// A client whose connection was attached and has then ended is removed:
/// whatever signal ended the connection, the client is registered no more
/// and is no subscriber of any topic.
pub proof fn lemma_disconnected_client_receives_nothing(
    d: Directory,
    id: Seq<char>,
    handle: Outbound,
    signal: Signal,
    topic: Seq<char>,
)
    requires
        d.contains_key(id),
        signal.ends_connection(),
    ensures
        state_after_open(ConnectionState::Pending, d.contains_key(id)) == ConnectionState::Attached,
        cleans_up(ConnectionState::Attached, signal),
        state_after(ConnectionState::Attached, signal) == ConnectionState::Closed,
        !after_removal(after_attach(d, id, handle), id).contains_key(id),
        !subscribers(after_removal(after_attach(d, id, handle), id), topic).contains(id),
{
}

/// A connection is served only for a registered client: opening attaches
/// a pending connection exactly if its client is registered, and leaves
/// every other connection as it is.
pub proof fn lemma_only_registered_clients_are_served(state: ConnectionState, registered: bool)
    ensures
        action_after_open(state, registered) == Action::Serve <==> state
            == ConnectionState::Pending && registered,
        action_after_open(state, registered) == Action::Serve ==> state_after_open(
            state,
            registered,
        ) == ConnectionState::Attached,
        state == ConnectionState::Pending && !registered ==> state_after_open(state, registered)
            == ConnectionState::Closed,
        state != ConnectionState::Pending ==> state_after_open(state, registered) == state,
{
}

/// The state of a connection after a sequence of signals, taken in order.
pub open spec fn state_after_all(state: ConnectionState, signals: Seq<Signal>) -> ConnectionState
    decreases signals.len(),
{
    if signals.len() == 0 {
        state
    } else {
        state_after(state_after_all(state, signals.drop_last()), signals.last())
    }
}

/// How often a connection removes its client's record while it takes a
/// sequence of signals.
pub open spec fn cleanups(state: ConnectionState, signals: Seq<Signal>) -> nat
    decreases signals.len(),
{
    if signals.len() == 0 {
        0
    } else {
        cleanups(state, signals.drop_last()) + if cleans_up(
            state_after_all(state, signals.drop_last()),
            signals.last(),
        ) {
            1nat
        } else {
            0nat
        }
    }
}

/// However many signals report the end of a connection, and in whatever
/// order, the connection cleans up at most once: an attached connection
/// does so at the first signal that ends it, and a connection that is
/// pending or closed never does. Once closed, a connection stays closed.
pub proof fn lemma_close_triggers_collapse(state: ConnectionState, signals: Seq<Signal>)
    ensures
        cleanups(state, signals) <= 1,
        cleanups(state, signals) == 1 <==> state == ConnectionState::Attached && exists|i: int|
            0 <= i < signals.len() && (#[trigger] signals[i]).ends_connection(),
        state_after_all(state, signals) == (if exists|i: int|
            0 <= i < signals.len() && (#[trigger] signals[i]).ends_connection() {
            ConnectionState::Closed
        } else {
            state
        }),
    decreases signals.len(),
{
    if signals.len() > 0 {
        let earlier = signals.drop_last();
        let n = earlier.len() as int;
        lemma_close_triggers_collapse(state, earlier);
        assert(signals[n] == signals.last());
        assert forall|i: int| 0 <= i < n implies signals[i] == earlier[i] by {}
        if exists|i: int| 0 <= i < earlier.len() && (#[trigger] earlier[i]).ends_connection() {
            let i = choose|i: int|
                0 <= i < earlier.len() && (#[trigger] earlier[i]).ends_connection();
            assert(signals[i].ends_connection());
        } else if signals.last().ends_connection() {
            assert(signals[n].ends_connection());
        } else {
            if exists|i: int| 0 <= i < signals.len() && (#[trigger] signals[i]).ends_connection() {
                let i = choose|i: int|
                    0 <= i < signals.len() && (#[trigger] signals[i]).ends_connection();
                if i < n {
                    assert(earlier[i].ends_connection());
                }
            }
        }
    }
}

/// Subscribing twice is subscribing once: the second addition of a topic
/// changes nothing, so the subscribers of every topic stay the same.
pub proof fn lemma_adding_a_topic_twice_changes_nothing(
    d: Directory,
    id: Seq<char>,
    topic: Seq<char>,
    published: Seq<char>,
)
    ensures
        after_add_topic(after_add_topic(d, id, topic), id, topic) == after_add_topic(d, id, topic),
        subscribers(after_add_topic(after_add_topic(d, id, topic), id, topic), published)
            == subscribers(after_add_topic(d, id, topic), published),
{
    let once = after_add_topic(d, id, topic);
    let twice = after_add_topic(once, id, topic);
    if d.contains_key(id) {
        assert(once[id].topics.insert(topic) =~= once[id].topics);
        assert(twice[id] == once[id]);
    }
    assert(twice =~= once);
}

/// Removing a topic that the client does not subscribe to, or removing one
/// twice, changes nothing more than removing it once.
pub proof fn lemma_removing_a_topic_twice_changes_nothing(
    d: Directory,
    id: Seq<char>,
    topic: Seq<char>,
)
    ensures
        after_remove_topic(after_remove_topic(d, id, topic), id, topic) == after_remove_topic(
            d,
            id,
            topic,
        ),
        d.contains_key(id) && !d[id].subscribes_to(topic) ==> after_remove_topic(d, id, topic)
            == d,
{
    let once = after_remove_topic(d, id, topic);
    let twice = after_remove_topic(once, id, topic);
    if d.contains_key(id) {
        assert(once[id].topics.remove(topic) =~= once[id].topics);
        assert(twice[id] == once[id]);
        if !d[id].subscribes_to(topic) {
            assert(d[id].topics.remove(topic) =~= d[id].topics);
            assert(once[id] == d[id]);
            assert(once =~= d);
        }
    }
    assert(twice =~= once);
}

/// How often a client is named in a list of subscribers.
pub open spec fn copies(list: Seq<Subscriber>, id: Seq<char>) -> nat
    decreases list.len(),
{
    if list.len() == 0 {
        0
    } else {
        copies(list.drop_last(), id) + if list.last().client_id@ == id {
            1nat
        } else {
            0nat
        }
    }
}

/// A client that no member of a list names has no copy in it.
proof fn lemma_unnamed_has_no_copy(list: Seq<Subscriber>, id: Seq<char>)
    requires
        forall|k: int| 0 <= k < list.len() ==> #[trigger] list[k].client_id@ != id,
    ensures
        copies(list, id) == 0,
    decreases list.len(),
{
    if list.len() > 0 {
        let earlier = list.drop_last();
        assert forall|k: int| 0 <= k < earlier.len() implies #[trigger] earlier[k].client_id@
            != id by {
            assert(earlier[k] == list[k]);
        }
        lemma_unnamed_has_no_copy(earlier, id);
        assert(list.last() == list[list.len() - 1]);
    }
}

/// A client that exactly one member of a list names has one copy in it.
proof fn lemma_named_once_has_one_copy(list: Seq<Subscriber>, id: Seq<char>, at: int)
    requires
        0 <= at < list.len(),
        list[at].client_id@ == id,
        forall|k: int| 0 <= k < list.len() && k != at ==> #[trigger] list[k].client_id@ != id,
    ensures
        copies(list, id) == 1,
    decreases list.len(),
{
    let earlier = list.drop_last();
    assert(list.last() == list[list.len() - 1]);
    if at == list.len() - 1 {
        assert forall|k: int| 0 <= k < earlier.len() implies #[trigger] earlier[k].client_id@
            != id by {
            assert(earlier[k] == list[k]);
        }
        lemma_unnamed_has_no_copy(earlier, id);
    } else {
        assert(earlier[at] == list[at]);
        assert forall|k: int| 0 <= k < earlier.len() && k != at implies #[trigger] earlier[k].client_id@
            != id by {
            assert(earlier[k] == list[k]);
        }
        lemma_named_once_has_one_copy(earlier, id, at);
    }
}

/// No subscriber is named twice and none is left out: a snapshot names
/// every client that subscribes to the topic and is connected exactly
/// once, and no other client at all. A publish makes one offer to each
/// member of such a snapshot.
pub proof fn lemma_one_copy_for_each_subscriber(
    list: Seq<Subscriber>,
    d: Directory,
    topic: Seq<char>,
    id: Seq<char>,
)
    requires
        is_snapshot(list, d, topic),
    ensures
        copies(list, id) == if subscribers(d, topic).contains(id) {
            1nat
        } else {
            0nat
        },
{
    if subscribers(d, topic).contains(id) {
        let at = choose|k: int| 0 <= k < list.len() && #[trigger] list[k].client_id@ == id;
        assert forall|k: int| 0 <= k < list.len() && k != at implies #[trigger] list[k].client_id@
            != id by {
            if k < at {
                assert(list[k].client_id@ != list[at].client_id@);
            } else {
                assert(list[at].client_id@ != list[k].client_id@);
            }
        }
        lemma_named_once_has_one_copy(list, id, at);
    } else {
        assert forall|k: int| 0 <= k < list.len() implies #[trigger] list[k].client_id@ != id by {
            assert(subscribers(d, topic).contains(list[k].client_id@));
        }
        lemma_unnamed_has_no_copy(list, id);
    }
}

/// Attaching a connection makes the client a subscriber of exactly the
/// topics of its record, and changes nothing for any other client.
pub proof fn lemma_attached_client_receives_its_topics(
    d: Directory,
    id: Seq<char>,
    handle: Outbound,
    topic: Seq<char>,
)
    requires
        d.contains_key(id),
    ensures
        subscribers(after_attach(d, id, handle), topic).contains(id) <==> d[id].subscribes_to(
            topic,
        ),
        forall|other: Seq<char>|
            other != id ==> (subscribers(after_attach(d, id, handle), topic).contains(other)
                <==> #[trigger] subscribers(d, topic).contains(other)),
{
}

/// A change of subscription takes effect with the next publish: a
/// connected client that has added a topic is a subscriber of it, a client
/// that has removed a topic is none, and the subscribers of every other
/// topic stay the same.
pub proof fn lemma_subscription_decides_who_receives(
    d: Directory,
    id: Seq<char>,
    topic: Seq<char>,
    published: Seq<char>,
)
    requires
        d.contains_key(id),
    ensures
        subscribers(after_add_topic(d, id, topic), topic).contains(id) <==> d[id].connected(),
        !subscribers(after_remove_topic(d, id, topic), topic).contains(id),
        published != topic ==> subscribers(after_add_topic(d, id, topic), published)
            == subscribers(d, published),
        published != topic ==> subscribers(after_remove_topic(d, id, topic), published)
            == subscribers(d, published),
{
    if published != topic {
        assert(subscribers(after_add_topic(d, id, topic), published) =~= subscribers(
            d,
            published,
        ));
        assert(subscribers(after_remove_topic(d, id, topic), published) =~= subscribers(
            d,
            published,
        ));
    }
}

} // verus!
