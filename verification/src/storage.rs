//! The storage engine: the interface of a queue backend and the engine that
//! keeps the queue in memory.

use crate::ident::resolve;
use crate::message::{Message, MessageState};
use crate::queue::{hold, lemma_hold_next, message_views, named_ids, texts, QueueView};
use std::collections::HashMap;
use vstd::prelude::*;

verus! {

broadcast use vstd::std_specs::hash::group_hash_axioms;

/// A backend that holds the queue. Every operation either succeeds and
/// moves the queue as the model says, or fails and leaves it as it was.
pub trait Storage {
    /// The queue that the backend holds.
    spec fn state(&self) -> QueueView;

    /// Whether no operation of this backend ever fails.
    spec fn dependable() -> bool;

    /// Appends a message to the tail of the ready queue.
    fn add(&mut self, msg: Message) -> (done: Result<(), String>)
        ensures
            done is Ok ==> final(self).state() == old(self).state().add(msg@),
            done is Err ==> final(self).state() == old(self).state(),
            Self::dependable() ==> done is Ok,
    ;

    /// Leases up to `count` messages from the head of the ready queue and
    /// returns them in queue order.
    fn get(&mut self, count: usize) -> (leased: Result<Vec<Message>, String>)
        ensures
            match leased {
                Ok(batch) => {
                    &&& message_views(batch@) == old(self).state().batch(count as nat)
                    &&& final(self).state() == old(self).state().lease(count as nat)
                },
                Err(_) => final(self).state() == old(self).state(),
            },
            Self::dependable() ==> leased is Ok,
    ;

    /// Acknowledges the leased messages that `ids` name; other identifiers
    /// are passed over.
    fn delete(&mut self, ids: Vec<String>) -> (done: Result<(), String>)
        ensures
            done is Ok ==> final(self).state() == old(self).state().delete(texts(ids@)),
            done is Err ==> final(self).state() == old(self).state(),
            Self::dependable() ==> done is Ok,
    ;

    /// Empties the queue.
    fn purge(&mut self) -> (done: Result<(), String>)
        ensures
            done is Ok ==> final(self).state() == old(self).state().purge(),
            done is Err ==> final(self).state() == old(self).state(),
            Self::dependable() ==> done is Ok,
    ;

    /// Releases the leased messages that `ids` name, in the order of the
    /// list, to the tail of the ready queue; other identifiers are passed
    /// over.
    fn retry(&mut self, ids: Vec<String>) -> (done: Result<(), String>)
        ensures
            done is Ok ==> final(self).state() == old(self).state().retry(texts(ids@)),
            done is Err ==> final(self).state() == old(self).state(),
            Self::dependable() ==> done is Ok,
    ;

    /// Shows up to `count` messages from the head of the ready queue and
    /// leaves the queue as it is.
    fn peek(&self, count: usize) -> (shown: Result<Vec<Message>, String>)
        ensures
            shown matches Ok(head) ==> message_views(head@) == self.state().peek(count as nat),
            Self::dependable() ==> shown is Ok,
    ;
}

/// The engine that keeps the queue in memory.
pub struct MemoryStorage {
    queue: Vec<Message>,
    processing: HashMap<u128, Message>,
}

impl View for MemoryStorage {
    type V = QueueView;

    closed spec fn view(&self) -> QueueView {
        QueueView {
            ready: message_views(self.queue@),
            in_flight: self.processing@.map_values(|msg: Message| msg@),
        }
    }
}

impl MemoryStorage {
    /// An engine with an empty queue.
    pub fn new() -> (store: MemoryStorage)
        ensures
            store@ == QueueView::empty(),
    {
        let store = MemoryStorage { queue: Vec::new(), processing: HashMap::new() };
        assert(store@.ready =~= Seq::empty());
        assert(store@.in_flight =~= Map::empty());
        store
    }
}

impl Default for MemoryStorage {
    fn default() -> (store: MemoryStorage)
        ensures
            store@ == QueueView::empty(),
    {
        MemoryStorage::new()
    }
}

impl Storage for MemoryStorage {
    open spec fn state(&self) -> QueueView {
        self@
    }

    open spec fn dependable() -> bool {
        true
    }

    fn add(&mut self, msg: Message) -> (done: Result<(), String>) {
        self.queue.push(msg);
        assert(self@.ready =~= old(self)@.ready.push(msg@));
        Ok(())
    }

    fn get(&mut self, count: usize) -> (leased: Result<Vec<Message>, String>) {
        let ghost start = self@;
        let ghost handed = start.batch(count as nat);
        let take = if count < self.queue.len() {
            count
        } else {
            self.queue.len()
        };
        let mut batch = self.queue.split_off(take);
        std::mem::swap(&mut self.queue, &mut batch);
        assert(self@.ready =~= start.ready.skip(take as int));
        let mut i: usize = 0;
        while i < batch.len()
            invariant
                i <= batch.len(),
                batch.len() == take,
                take == start.available(count as nat),
                handed == start.batch(count as nat),
                self@.ready == start.ready.skip(take as int),
                forall|j: int| 0 <= j < i ==> (#[trigger] batch[j])@ == handed[j],
                forall|j: int| i <= j < take ==> (#[trigger] batch[j])@ == start.ready[j],
                self@.in_flight == hold(start.in_flight, handed.take(i as int)),
            decreases batch.len() - i,
        {
            let ghost held = self.processing@;
            batch[i].state = MessageState::Processing;
            let id = batch[i].id;
            let copy = batch[i].clone();
            self.processing.insert(id, copy);
            proof {
                assert(copy@ == handed[i as int]);
                lemma_hold_next(start.in_flight, handed, i as int);
                assert(self.processing@.map_values(|msg: Message| msg@) =~= held.map_values(
                    |msg: Message| msg@,
                ).insert(id, copy@));
            }
            i += 1;
        }
        assert(handed.take(take as int) =~= handed);
        assert(message_views(batch@) =~= handed);
        Ok(batch)
    }

    fn delete(&mut self, ids: Vec<String>) -> (done: Result<(), String>) {
        let ghost start = self@;
        let ghost named = texts(ids@);
        assert(start.in_flight.remove_keys(named_ids(named.take(0))) =~= start.in_flight);
        let mut i: usize = 0;
        while i < ids.len()
            invariant
                i <= ids.len(),
                named == texts(ids@),
                self@ == start.delete(named.take(i as int)),
            decreases ids.len() - i,
        {
            let ghost held = self.processing@;
            proof {
                start.lemma_delete_next(named, i as int);
            }
            match resolve(&ids[i]) {
                Some(id) => {
                    self.processing.remove(&id);
                    assert(self.processing@.map_values(|msg: Message| msg@) =~= held.map_values(
                        |msg: Message| msg@,
                    ).remove(id));
                },
                None => {},
            }
            i += 1;
        }
        assert(named.take(ids.len() as int) =~= named);
        Ok(())
    }

    fn purge(&mut self) -> (done: Result<(), String>) {
        self.queue.clear();
        self.processing.clear();
        Ok(())
    }

    fn retry(&mut self, ids: Vec<String>) -> (done: Result<(), String>) {
        let ghost start = self@;
        let ghost named = texts(ids@);
        let mut i: usize = 0;
        while i < ids.len()
            invariant
                i <= ids.len(),
                named == texts(ids@),
                self@ == start.retry(named.take(i as int)),
            decreases ids.len() - i,
        {
            let ghost held = self.processing@;
            let ghost waiting = self.queue@;
            proof {
                start.lemma_retry_next(named, i as int);
            }
            match resolve(&ids[i]) {
                Some(id) => {
                    match self.processing.remove(&id) {
                        Some(msg) => {
                            let retry_count: i32 = if msg.retry_count < i32::MAX {
                                msg.retry_count + 1
                            } else {
                                msg.retry_count
                            };
                            let again = Message { state: MessageState::Ready, retry_count, ..msg };
                            assert(again@ == msg@.retried());
                            self.queue.push(again);
                            assert(self.processing@.map_values(|msg: Message| msg@)
                                =~= held.map_values(|msg: Message| msg@).remove(id));
                            assert(message_views(self.queue@) =~= message_views(waiting).push(
                                again@,
                            ));
                        },
                        None => {},
                    }
                },
                None => {},
            }
            i += 1;
        }
        assert(named.take(ids.len() as int) =~= named);
        Ok(())
    }

    fn peek(&self, count: usize) -> (shown: Result<Vec<Message>, String>) {
        let take = if count < self.queue.len() {
            count
        } else {
            self.queue.len()
        };
        let mut head: Vec<Message> = Vec::new();
        let mut i: usize = 0;
        while i < take
            invariant
                i <= take <= self.queue.len(),
                head@ == self.queue@.take(i as int),
            decreases take - i,
        {
            head.push(self.queue[i].clone());
            i += 1;
        }
        Ok(head)
    }
}

} // verus!
