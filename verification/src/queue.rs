//! The mathematical model of the queue, over which every contract of the
//! engine and of the service is stated.

use crate::ident::named_id;
use crate::message::{Message, MessageState, MessageView};
use vstd::prelude::*;

verus! {

/// The views of a sequence of messages, in order.
pub open spec fn message_views(messages: Seq<Message>) -> Seq<MessageView> {
    messages.map_values(|msg: Message| msg@)
}

/// The texts of a list of identifier strings, in order.
pub open spec fn texts(ids: Seq<String>) -> Seq<Seq<char>> {
    ids.map_values(|id: String| id@)
}

/// The identifiers that the texts of a list name.
pub open spec fn named_ids(ids: Seq<Seq<char>>) -> Set<u128> {
    Set::new(|id: u128| exists|i: int| 0 <= i < ids.len() && named_id(#[trigger] ids[i]) == Some(id))
}

/// Whether the messages of a sequence have identifiers that differ from one
/// another.
pub open spec fn distinct_ids(messages: Seq<MessageView>) -> bool {
    forall|i: int, j: int|
        0 <= i < j < messages.len() ==> (#[trigger] messages[i]).id != (#[trigger] messages[j]).id
}

/// Whether a message of the sequence has the identifier.
pub open spec fn has_id(messages: Seq<MessageView>, id: u128) -> bool {
    exists|i: int| 0 <= i < messages.len() && (#[trigger] messages[i]).id == id
}

/// The in-flight set after the messages of a batch have entered it, one
/// after the other, each under its own identifier.
pub open spec fn hold(in_flight: Map<u128, MessageView>, batch: Seq<MessageView>) -> Map<
    u128,
    MessageView,
>
    decreases batch.len(),
{
    if batch.len() == 0 {
        in_flight
    } else {
        hold(in_flight, batch.drop_last()).insert(batch.last().id, batch.last())
    }
}

/// The state of a queue: the messages that wait, oldest first, and the
/// messages that are leased, by identifier.
#[verifier::ext_equal]
pub struct QueueView {
    pub ready: Seq<MessageView>,
    pub in_flight: Map<u128, MessageView>,
}

impl QueueView {
    /// The queue that holds nothing.
    pub open spec fn empty() -> QueueView {
        QueueView { ready: Seq::empty(), in_flight: Map::empty() }
    }

    /// The number of messages that the queue holds, waiting or leased.
    pub open spec fn len(self) -> nat {
        self.ready.len() + self.in_flight.len()
    }

    /// Whether a message with this identifier waits or is leased.
    pub open spec fn holds(self, id: u128) -> bool {
        self.in_flight.contains_key(id) || has_id(self.ready, id)
    }

    /// The invariant of the data model: every message stands in exactly one
    /// place, under an identifier that no other message has; the waiting
    /// messages are `Ready`, the leased ones `Processing`.
    pub open spec fn well_formed(self) -> bool {
        &&& self.in_flight.dom().finite()
        &&& distinct_ids(self.ready)
        &&& forall|i: int|
            0 <= i < self.ready.len() ==> !self.in_flight.contains_key((#[trigger] self.ready[i]).id)
        &&& forall|i: int|
            0 <= i < self.ready.len() ==> (#[trigger] self.ready[i]).state == MessageState::Ready
        &&& forall|id: u128| #[trigger]
            self.in_flight.contains_key(id) ==> self.in_flight[id].id == id
                && self.in_flight[id].state == MessageState::Processing
    }

    /// The queue after a message has joined the tail of the waiting messages.
    pub open spec fn add(self, msg: MessageView) -> QueueView {
        QueueView { ready: self.ready.push(msg), ..self }
    }

    /// How many messages a request for `count` of them gets: all that wait,
    /// if they are fewer.
    pub open spec fn available(self, count: nat) -> nat {
        if count <= self.ready.len() {
            count
        } else {
            self.ready.len()
        }
    }

    /// The messages at the head of the queue that a request for `count` of
    /// them shows, as they wait.
    pub open spec fn peek(self, count: nat) -> Seq<MessageView> {
        self.ready.take(self.available(count) as int)
    }

    /// The batch that a lease of `count` messages hands out: the head of the
    /// queue, in order, each message marked as leased.
    pub open spec fn batch(self, count: nat) -> Seq<MessageView> {
        self.peek(count).map_values(|msg: MessageView| msg.leased())
    }

    /// The queue after a lease of `count` messages.
    pub open spec fn lease(self, count: nat) -> QueueView {
        QueueView {
            ready: self.ready.skip(self.available(count) as int),
            in_flight: hold(self.in_flight, self.batch(count)),
        }
    }

    /// The queue after the leased messages that `ids` name are acknowledged.
    pub open spec fn delete(self, ids: Seq<Seq<char>>) -> QueueView {
        QueueView { in_flight: self.in_flight.remove_keys(named_ids(ids)), ..self }
    }

    /// The queue after one identifier is released: if it names a leased
    /// message, that message joins the tail of the waiting ones.
    pub open spec fn retry_one(self, id: Seq<char>) -> QueueView {
        match named_id(id) {
            Some(key) => if self.in_flight.contains_key(key) {
                QueueView {
                    ready: self.ready.push(self.in_flight[key].retried()),
                    in_flight: self.in_flight.remove(key),
                }
            } else {
                self
            },
            None => self,
        }
    }

    /// The queue after the identifiers of a list are released in turn.
    pub open spec fn retry(self, ids: Seq<Seq<char>>) -> QueueView
        decreases ids.len(),
    {
        if ids.len() == 0 {
            self
        } else {
            self.retry(ids.drop_last()).retry_one(ids.last())
        }
    }

    /// The queue after a purge.
    pub open spec fn purge(self) -> QueueView {
        QueueView::empty()
    }

    /// Acknowledging one more identifier of a list removes from the in-flight
    /// set the message that it names, if it names one.
    pub proof fn lemma_delete_next(self, ids: Seq<Seq<char>>, n: int)
        requires
            0 <= n < ids.len(),
        ensures
            self.delete(ids.take(n + 1)) == match named_id(ids[n]) {
                Some(id) => (QueueView {
                    in_flight: self.delete(ids.take(n)).in_flight.remove(id),
                    ..self
                }),
                None => self.delete(ids.take(n)),
            },
    {
        let before = named_ids(ids.take(n));
        let after = named_ids(ids.take(n + 1));
        assert(ids.take(n + 1)[n] == ids[n]);
        assert forall|id: u128| before.contains(id) implies after.contains(id) by {
            let i = choose|i: int| 0 <= i < n && named_id(#[trigger] ids.take(n)[i]) == Some(id);
            assert(ids.take(n + 1)[i] == ids.take(n)[i]);
        }
        assert forall|id: u128| after.contains(id) && named_id(ids[n]) != Some(id) implies before.contains(
            id,
        ) by {
            let i = choose|i: int|
                0 <= i < n + 1 && named_id(#[trigger] ids.take(n + 1)[i]) == Some(id);
            assert(ids.take(n)[i] == ids.take(n + 1)[i]);
        }
        match named_id(ids[n]) {
            Some(id) => {
                assert(after =~= before.insert(id));
                assert(self.in_flight.remove_keys(after) =~= self.in_flight.remove_keys(
                    before,
                ).remove(id));
            },
            None => {
                assert(after =~= before);
            },
        }
    }

    /// Releasing one more identifier of a list is one more single release.
    pub proof fn lemma_retry_next(self, ids: Seq<Seq<char>>, n: int)
        requires
            0 <= n < ids.len(),
        ensures
            self.retry(ids.take(n + 1)) == self.retry(ids.take(n)).retry_one(ids[n]),
    {
        assert(ids.take(n + 1).drop_last() =~= ids.take(n));
    }
}

/// One more message of a batch enters the in-flight set under its own
/// identifier.
pub proof fn lemma_hold_next(in_flight: Map<u128, MessageView>, batch: Seq<MessageView>, n: int)
    requires
        0 <= n < batch.len(),
    ensures
        hold(in_flight, batch.take(n + 1)) == hold(in_flight, batch.take(n)).insert(
            batch[n].id,
            batch[n],
        ),
{
    assert(batch.take(n + 1).drop_last() =~= batch.take(n));
}

} // verus!
