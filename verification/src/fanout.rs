//! The fan-out of a published payload to the subscribers of its topic.
//!
//! A publish is best effort: it decides who the subscribers are, offers the
//! payload to the channel of each, and is done once every offer has been
//! made. It does not wait for a transport, and a channel whose connection
//! has gone in the meantime takes nothing and fails nothing.

use crate::channel::offer_text;
use crate::model::subscribers;
use crate::registry::{Registry, Subscriber};
use vstd::prelude::*;

verus! {

/// The account of one publish.
#[derive(Debug, Clone, Copy, PartialEq, Eq, Structural)]
pub struct Dispatch {
    /// How many subscribers the payload was offered to.
    pub subscribers: usize,
    /// How many of their channels took it.
    pub enqueued: usize,
}

impl Dispatch {
    /// The account of a publish before any offer.
    pub fn none() -> (report: Dispatch)
        ensures
            report == (Dispatch { subscribers: 0, enqueued: 0 }),
    {
        Dispatch { subscribers: 0, enqueued: 0 }
    }

    /// The account after one more offer, which the channel took or did not
    /// take. A refused offer counts as made: it is no failure of the
    /// publish.
    pub fn record(self, accepted: bool) -> (report: Dispatch)
        requires
            self.enqueued <= self.subscribers < usize::MAX,
        ensures
            report.subscribers == self.subscribers + 1,
            report.enqueued == self.enqueued + if accepted {
                1int
            } else {
                0int
            },
    {
        Dispatch {
            subscribers: self.subscribers + 1,
            enqueued: if accepted {
                self.enqueued + 1
            } else {
                self.enqueued
            },
        }
    }
}

/// Offers `payload` to each subscriber of a snapshot, in the order of the
/// list. Needs no access to the registry. Whether a channel takes the
/// payload is up to its receiving end, so the account bounds the number of
/// payloads enqueued and fixes the number of offers.
pub fn dispatch(list: &Vec<Subscriber>, payload: &str) -> (report: Dispatch)
    ensures
        report.subscribers == list.len(),
        report.enqueued <= report.subscribers,
{
    let mut report = Dispatch::none();
    let mut i: usize = 0;
    while i < list.len()
        invariant
            i <= list.len(),
            report.subscribers == i,
            report.enqueued <= i,
        decreases list.len() - i,
    {
        let accepted = offer_text(&list[i].sender, payload);
        report = report.record(accepted);
        i += 1;
    }
    report
}

/// Publishes `payload` to `topic`: offers it once to each client that
/// subscribes to the topic and has a connection attached. Always succeeds;
/// with no subscriber it offers nothing.
pub fn publish(registry: &Registry, topic: &str, payload: &str) -> (report: Dispatch)
    ensures
        report.subscribers == subscribers(registry@, topic@).len(),
        report.enqueued <= report.subscribers,
        subscribers(registry@, topic@) == Set::<Seq<char>>::empty() ==> report == (Dispatch {
            subscribers: 0,
            enqueued: 0,
        }),
{
    let list = registry.snapshot_subscribers(topic);
    dispatch(&list, payload)
}

} // verus!
