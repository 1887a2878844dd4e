//! What holds of the queue whatever is done to it, proved over the model.
//!
//! The laws that speak of a well-formed queue hold of every queue that the
//! operations build from the empty one, as long as no identifier is added
//! while a message with it is still held.

use crate::ident::named_id;
use crate::message::{MessageState, MessageView};
use crate::queue::{distinct_ids, has_id, hold, named_ids, QueueView};
use vstd::prelude::*;

verus! {

/// The in-flight set after a batch has entered it holds what it held and
/// the batch; a message that the batch does not replace stays as it was.
pub proof fn lemma_hold_keys(in_flight: Map<u128, MessageView>, batch: Seq<MessageView>)
    ensures
        forall|id: u128| #[trigger]
            hold(in_flight, batch).contains_key(id) <==> in_flight.contains_key(id) || has_id(
                batch,
                id,
            ),
        forall|id: u128|
            in_flight.contains_key(id) && !has_id(batch, id) ==> #[trigger] hold(
                in_flight,
                batch,
            )[id] == in_flight[id],
        in_flight.dom().finite() ==> hold(in_flight, batch).dom().finite(),
    decreases batch.len(),
{
    if batch.len() > 0 {
        let front = batch.drop_last();
        let last = batch.last();
        lemma_hold_keys(in_flight, front);
        assert(hold(in_flight, batch) == hold(in_flight, front).insert(last.id, last));
        assert forall|id: u128| #[trigger]
            hold(in_flight, batch).contains_key(id) <==> in_flight.contains_key(id) || has_id(
                batch,
                id,
            ) by {
            assert(hold(in_flight, front).contains_key(id) <==> in_flight.contains_key(id)
                || has_id(front, id));
            if has_id(front, id) {
                let i = choose|i: int| 0 <= i < front.len() && (#[trigger] front[i]).id == id;
                assert(batch[i].id == id);
            }
            if has_id(batch, id) && id != last.id {
                let i = choose|i: int| 0 <= i < batch.len() && (#[trigger] batch[i]).id == id;
                assert(front[i].id == id);
            }
            if id == last.id {
                assert(batch[batch.len() - 1].id == id);
            }
        }
        assert forall|id: u128| in_flight.contains_key(id) && !has_id(batch, id) implies #[trigger] hold(
            in_flight,
            batch,
        )[id] == in_flight[id] by {
            assert(batch[batch.len() - 1].id != id);
            assert(hold(in_flight, front).contains_key(id));
            if has_id(front, id) {
                let i = choose|i: int| 0 <= i < front.len() && (#[trigger] front[i]).id == id;
                assert(batch[i].id == id);
            }
        }
    }
}

/// Where the messages of a batch have identifiers of their own, each is in
/// flight, as it was handed out, once the batch has entered.
pub proof fn lemma_hold_values(in_flight: Map<u128, MessageView>, batch: Seq<MessageView>)
    requires
        distinct_ids(batch),
    ensures
        forall|i: int|
            0 <= i < batch.len() ==> hold(in_flight, batch)[(#[trigger] batch[i]).id] == batch[i],
    decreases batch.len(),
{
    if batch.len() > 0 {
        let front = batch.drop_last();
        assert(distinct_ids(front)) by {
            assert forall|i: int, j: int| 0 <= i < j < front.len() implies (#[trigger] front[i]).id
                != (#[trigger] front[j]).id by {
                assert(batch[i].id != batch[j].id);
            }
        }
        lemma_hold_values(in_flight, front);
        assert forall|i: int| 0 <= i < batch.len() implies hold(in_flight, batch)[(
        #[trigger] batch[i]).id] == batch[i] by {
            if i < front.len() {
                assert(front[i] == batch[i]);
                assert(batch[i].id != batch[batch.len() - 1].id);
            }
        }
    }
}

/// A batch of messages that are new to the in-flight set, each under an
/// identifier of its own, makes the set larger by its length.
pub proof fn lemma_hold_len(in_flight: Map<u128, MessageView>, batch: Seq<MessageView>)
    requires
        in_flight.dom().finite(),
        distinct_ids(batch),
        forall|i: int| 0 <= i < batch.len() ==> !in_flight.contains_key((#[trigger] batch[i]).id),
    ensures
        hold(in_flight, batch).dom().finite(),
        hold(in_flight, batch).len() == in_flight.len() + batch.len(),
    decreases batch.len(),
{
    if batch.len() > 0 {
        let front = batch.drop_last();
        let last = batch.last();
        assert forall|i: int, j: int| 0 <= i < j < front.len() implies (#[trigger] front[i]).id != (
        #[trigger] front[j]).id by {
            assert(batch[i].id != batch[j].id);
        }
        assert forall|i: int| 0 <= i < front.len() implies !in_flight.contains_key(
            (#[trigger] front[i]).id,
        ) by {
            assert(batch[i].id == front[i].id);
        }
        lemma_hold_len(in_flight, front);
        lemma_hold_keys(in_flight, front);
        assert(!has_id(front, last.id)) by {
            if has_id(front, last.id) {
                let i = choose|i: int| 0 <= i < front.len() && (#[trigger] front[i]).id == last.id;
                assert(batch[i].id != batch[batch.len() - 1].id);
            }
        }
        assert(!in_flight.contains_key(batch[batch.len() - 1].id));
        assert(!hold(in_flight, front).contains_key(last.id));
    }
}

/// The empty queue is well formed.
pub proof fn empty_is_well_formed()
    ensures
        QueueView::empty().well_formed(),
        QueueView::empty().len() == 0,
{
}

/// Adding a ready message under an identifier that the queue does not hold
/// keeps the queue well formed.
pub proof fn add_keeps_well_formed(queue: QueueView, msg: MessageView)
    requires
        queue.well_formed(),
        msg.state == MessageState::Ready,
        !queue.holds(msg.id),
    ensures
        queue.add(msg).well_formed(),
{
    let after = queue.add(msg);
    assert forall|i: int, j: int| 0 <= i < j < after.ready.len() implies (
    #[trigger] after.ready[i]).id != (#[trigger] after.ready[j]).id by {
        if j == queue.ready.len() {
            assert(queue.ready[i].id != msg.id);
        } else {
            assert(queue.ready[i].id != queue.ready[j].id);
        }
    }
    assert forall|i: int| 0 <= i < after.ready.len() implies !after.in_flight.contains_key(
        (#[trigger] after.ready[i]).id,
    ) by {
        if i < queue.ready.len() {
            assert(after.ready[i] == queue.ready[i]);
        }
    }
    assert forall|i: int| 0 <= i < after.ready.len() implies (#[trigger] after.ready[i]).state
        == MessageState::Ready by {
        if i < queue.ready.len() {
            assert(after.ready[i] == queue.ready[i]);
        }
    }
}

/// What a lease hands out of a well-formed queue: messages that waited,
/// each under an identifier of its own that was not in flight.
proof fn lemma_batch(queue: QueueView, count: nat)
    requires
        queue.well_formed(),
    ensures
        queue.batch(count).len() == queue.available(count),
        distinct_ids(queue.batch(count)),
        forall|i: int|
            0 <= i < queue.batch(count).len() ==> {
                &&& (#[trigger] queue.batch(count)[i]) == queue.ready[i].leased()
                &&& !queue.in_flight.contains_key(queue.batch(count)[i].id)
            },
{
    let batch = queue.batch(count);
    assert forall|i: int, j: int| 0 <= i < j < batch.len() implies (#[trigger] batch[i]).id != (
    #[trigger] batch[j]).id by {
        assert(queue.ready[i].id != queue.ready[j].id);
    }
    assert forall|i: int| 0 <= i < batch.len() implies {
        &&& (#[trigger] batch[i]) == queue.ready[i].leased()
        &&& !queue.in_flight.contains_key(batch[i].id)
    } by {
        assert(!queue.in_flight.contains_key(queue.ready[i].id));
    }
}

/// A lease keeps the queue well formed.
pub proof fn lease_keeps_well_formed(queue: QueueView, count: nat)
    requires
        queue.well_formed(),
    ensures
        queue.lease(count).well_formed(),
{
    let after = queue.lease(count);
    let batch = queue.batch(count);
    let taken = queue.available(count) as int;
    lemma_batch(queue, count);
    lemma_hold_keys(queue.in_flight, batch);
    lemma_hold_values(queue.in_flight, batch);
    assert forall|i: int, j: int| 0 <= i < j < after.ready.len() implies (
    #[trigger] after.ready[i]).id != (#[trigger] after.ready[j]).id by {
        assert(queue.ready[taken + i].id != queue.ready[taken + j].id);
    }
    assert forall|i: int| 0 <= i < after.ready.len() implies !after.in_flight.contains_key(
        (#[trigger] after.ready[i]).id,
    ) by {
        let id = after.ready[i].id;
        assert(queue.ready[taken + i].id == id);
        if has_id(batch, id) {
            let k = choose|k: int| 0 <= k < batch.len() && (#[trigger] batch[k]).id == id;
            assert(queue.ready[k].id != queue.ready[taken + i].id);
        }
    }
    assert forall|i: int| 0 <= i < after.ready.len() implies (#[trigger] after.ready[i]).state
        == MessageState::Ready by {
        assert(queue.ready[taken + i].state == MessageState::Ready);
    }
    assert forall|id: u128| #[trigger] after.in_flight.contains_key(id) implies after.in_flight[id].id
        == id && after.in_flight[id].state == MessageState::Processing by {
        if has_id(batch, id) {
            let k = choose|k: int| 0 <= k < batch.len() && (#[trigger] batch[k]).id == id;
            assert(after.in_flight[batch[k].id] == batch[k]);
        } else {
            assert(queue.in_flight.contains_key(id));
        }
    }
}

/// An acknowledgement keeps the queue well formed.
pub proof fn delete_keeps_well_formed(queue: QueueView, ids: Seq<Seq<char>>)
    requires
        queue.well_formed(),
    ensures
        queue.delete(ids).well_formed(),
{
    let after = queue.delete(ids);
    assert(after.in_flight.dom().subset_of(queue.in_flight.dom()));
    vstd::set_lib::lemma_len_subset(after.in_flight.dom(), queue.in_flight.dom());
    assert forall|i: int| 0 <= i < after.ready.len() implies !after.in_flight.contains_key(
        (#[trigger] after.ready[i]).id,
    ) by {
        assert(!queue.in_flight.contains_key(queue.ready[i].id));
    }
}

/// The release of one identifier keeps the queue well formed.
pub proof fn retry_one_keeps_well_formed(queue: QueueView, id: Seq<char>)
    requires
        queue.well_formed(),
    ensures
        queue.retry_one(id).well_formed(),
{
    let after = queue.retry_one(id);
    if let Some(key) = named_id(id) {
        if queue.in_flight.contains_key(key) {
            let back = queue.in_flight[key].retried();
            assert(back.id == key);
            assert forall|i: int, j: int| 0 <= i < j < after.ready.len() implies (
            #[trigger] after.ready[i]).id != (#[trigger] after.ready[j]).id by {
                if j == queue.ready.len() {
                    assert(!queue.in_flight.contains_key(queue.ready[i].id));
                } else {
                    assert(queue.ready[i].id != queue.ready[j].id);
                }
            }
            assert forall|i: int| 0 <= i < after.ready.len() implies !after.in_flight.contains_key(
                (#[trigger] after.ready[i]).id,
            ) by {
                if i < queue.ready.len() {
                    assert(!queue.in_flight.contains_key(queue.ready[i].id));
                }
            }
            assert forall|i: int| 0 <= i < after.ready.len() implies (
            #[trigger] after.ready[i]).state == MessageState::Ready by {
                if i < queue.ready.len() {
                    assert(queue.ready[i].state == MessageState::Ready);
                }
            }
        }
    }
}

/// A release keeps the queue well formed.
pub proof fn retry_keeps_well_formed(queue: QueueView, ids: Seq<Seq<char>>)
    requires
        queue.well_formed(),
    ensures
        queue.retry(ids).well_formed(),
    decreases ids.len(),
{
    if ids.len() > 0 {
        retry_keeps_well_formed(queue, ids.drop_last());
        retry_one_keeps_well_formed(queue.retry(ids.drop_last()), ids.last());
    }
}

/// No message is leased to two consumers at once. A lease hands out only
/// messages that nobody holds, each of them once; from then on they are in
/// flight, as they were handed out, and wait no longer.
pub proof fn lease_is_exclusive(queue: QueueView, count: nat)
    requires
        queue.well_formed(),
    ensures
        distinct_ids(queue.batch(count)),
        forall|i: int|
            0 <= i < queue.batch(count).len() ==> {
                let msg = #[trigger] queue.batch(count)[i];
                &&& !queue.in_flight.contains_key(msg.id)
                &&& queue.lease(count).in_flight.contains_key(msg.id)
                &&& queue.lease(count).in_flight[msg.id] == msg
                &&& !has_id(queue.lease(count).ready, msg.id)
            },
{
    let after = queue.lease(count);
    let batch = queue.batch(count);
    lemma_batch(queue, count);
    lemma_hold_keys(queue.in_flight, batch);
    lemma_hold_values(queue.in_flight, batch);
    lease_keeps_well_formed(queue, count);
    assert forall|i: int| 0 <= i < batch.len() implies {
        let msg = #[trigger] batch[i];
        &&& !queue.in_flight.contains_key(msg.id)
        &&& after.in_flight.contains_key(msg.id)
        &&& after.in_flight[msg.id] == msg
        &&& !has_id(after.ready, msg.id)
    } by {
        let msg = batch[i];
        assert(has_id(batch, msg.id));
        if has_id(after.ready, msg.id) {
            let k = choose|k: int| 0 <= k < after.ready.len() && (#[trigger] after.ready[k]).id
                == msg.id;
            assert(!after.in_flight.contains_key(after.ready[k].id));
        }
    }
}

/// Two leases with no release between them share no message.
pub proof fn leases_are_disjoint(queue: QueueView, first: nat, second: nat)
    requires
        queue.well_formed(),
    ensures
        forall|i: int, j: int|
            0 <= i < queue.batch(first).len() && 0 <= j < queue.lease(first).batch(second).len()
                ==> (#[trigger] queue.batch(first)[i]).id != (#[trigger] queue.lease(first).batch(
                second,
            )[j]).id,
{
    let between = queue.lease(first);
    lease_is_exclusive(queue, first);
    lease_keeps_well_formed(queue, first);
    lease_is_exclusive(between, second);
}

/// A message under a new identifier makes the queue larger by one.
pub proof fn add_counts_one(queue: QueueView, msg: MessageView)
    ensures
        queue.add(msg).len() == queue.len() + 1,
{
}

/// A lease neither adds a message to a well-formed queue nor takes one from it.
pub proof fn lease_conserves(queue: QueueView, count: nat)
    requires
        queue.well_formed(),
    ensures
        queue.lease(count).len() == queue.len(),
{
    lemma_batch(queue, count);
    lemma_hold_len(queue.in_flight, queue.batch(count));
}

/// The release of one identifier neither adds a message nor takes one.
pub proof fn retry_one_conserves(queue: QueueView, id: Seq<char>)
    requires
        queue.in_flight.dom().finite(),
    ensures
        queue.retry_one(id).in_flight.dom().finite(),
        queue.retry_one(id).len() == queue.len(),
{
}

/// A release neither adds a message nor takes one.
pub proof fn retry_conserves(queue: QueueView, ids: Seq<Seq<char>>)
    requires
        queue.in_flight.dom().finite(),
    ensures
        queue.retry(ids).in_flight.dom().finite(),
        queue.retry(ids).len() == queue.len(),
    decreases ids.len(),
{
    if ids.len() > 0 {
        retry_conserves(queue, ids.drop_last());
        retry_one_conserves(queue.retry(ids.drop_last()), ids.last());
    }
}

/// The leased messages that a list of identifiers names: those that an
/// acknowledgement of the list removes.
pub open spec fn acknowledged(queue: QueueView, ids: Seq<Seq<char>>) -> Set<u128> {
    queue.in_flight.dom().intersect(named_ids(ids))
}

/// An acknowledgement makes the queue smaller by the number of leased
/// messages that the list names, and by no more.
pub proof fn delete_counts(queue: QueueView, ids: Seq<Seq<char>>)
    requires
        queue.in_flight.dom().finite(),
    ensures
        queue.delete(ids).in_flight.dom().finite(),
        queue.delete(ids).len() == queue.len() - acknowledged(queue, ids).len(),
{
    let gone = acknowledged(queue, ids);
    let kept = queue.delete(ids).in_flight.dom();
    assert(kept =~= queue.in_flight.dom().difference(gone));
    vstd::set_lib::lemma_len_intersect(queue.in_flight.dom(), named_ids(ids));
    vstd::set_lib::lemma_len_difference(queue.in_flight.dom(), gone);
    vstd::set_lib::lemma_set_disjoint_lens(kept, gone);
    assert(kept.union(gone) =~= queue.in_flight.dom());
}

/// A purge leaves nothing.
pub proof fn purge_counts(queue: QueueView)
    ensures
        queue.purge().len() == 0,
        queue.purge().well_formed(),
{
}

/// One operation on the queue.
pub enum Operation {
    Add(MessageView),
    Lease(nat),
    Retry(Seq<Seq<char>>),
    Delete(Seq<Seq<char>>),
    Purge,
}

impl Operation {
    /// The queue after the operation.
    pub open spec fn apply(self, queue: QueueView) -> QueueView {
        match self {
            Operation::Add(msg) => queue.add(msg),
            Operation::Lease(count) => queue.lease(count),
            Operation::Retry(ids) => queue.retry(ids),
            Operation::Delete(ids) => queue.delete(ids),
            Operation::Purge => queue.purge(),
        }
    }

    /// Whether the operation brings nothing that the queue already holds:
    /// a message is added ready, under an identifier that no held message
    /// has.
    pub open spec fn admitted(self, queue: QueueView) -> bool {
        match self {
            Operation::Add(msg) => msg.state == MessageState::Ready && !queue.holds(msg.id),
            _ => true,
        }
    }

    /// How many messages the operation brings into the queue.
    pub open spec fn adds(self) -> nat {
        match self {
            Operation::Add(_) => 1,
            _ => 0,
        }
    }

    /// How many messages the operation takes out of the queue for good: the
    /// leased messages that an acknowledgement names, and all that a purge
    /// finds.
    pub open spec fn removes(self, queue: QueueView) -> nat {
        match self {
            Operation::Delete(ids) => acknowledged(queue, ids).len(),
            Operation::Purge => queue.len(),
            _ => 0,
        }
    }
}

/// The queue after a sequence of operations, the first of them first.
pub open spec fn run(queue: QueueView, ops: Seq<Operation>) -> QueueView
    decreases ops.len(),
{
    if ops.len() == 0 {
        queue
    } else {
        ops.last().apply(run(queue, ops.drop_last()))
    }
}

/// Whether each operation of a sequence is admitted by the queue that it
/// finds.
pub open spec fn admissible(queue: QueueView, ops: Seq<Operation>) -> bool
    decreases ops.len(),
{
    ops.len() == 0 || (admissible(queue, ops.drop_last()) && ops.last().admitted(
        run(queue, ops.drop_last()),
    ))
}

/// How many messages a sequence of operations brings into the queue.
pub open spec fn added(ops: Seq<Operation>) -> nat
    decreases ops.len(),
{
    if ops.len() == 0 {
        0
    } else {
        added(ops.drop_last()) + ops.last().adds()
    }
}

/// How many messages a sequence of operations takes out of the queue for
/// good.
pub open spec fn removed(queue: QueueView, ops: Seq<Operation>) -> nat
    decreases ops.len(),
{
    if ops.len() == 0 {
        0
    } else {
        removed(queue, ops.drop_last()) + ops.last().removes(run(queue, ops.drop_last()))
    }
}

/// No message is lost and none appears from nowhere. After any sequence of
/// operations a well-formed queue is well formed, and it holds what it held,
/// and the messages that were added, less those that were acknowledged or
/// purged.
pub proof fn messages_are_conserved(queue: QueueView, ops: Seq<Operation>)
    requires
        queue.well_formed(),
        admissible(queue, ops),
    ensures
        run(queue, ops).well_formed(),
        run(queue, ops).len() == queue.len() + added(ops) - removed(queue, ops),
    decreases ops.len(),
{
    if ops.len() > 0 {
        let before = run(queue, ops.drop_last());
        messages_are_conserved(queue, ops.drop_last());
        match ops.last() {
            Operation::Add(msg) => {
                add_keeps_well_formed(before, msg);
                add_counts_one(before, msg);
            },
            Operation::Lease(count) => {
                lease_keeps_well_formed(before, count);
                lease_conserves(before, count);
            },
            Operation::Retry(ids) => {
                retry_keeps_well_formed(before, ids);
                retry_conserves(before, ids);
            },
            Operation::Delete(ids) => {
                delete_keeps_well_formed(before, ids);
                delete_counts(before, ids);
            },
            Operation::Purge => {
                purge_counts(before);
            },
        }
    }
}

/// Whatever is done to a queue that started empty, it holds as many
/// messages as were added, less those that were acknowledged or purged.
pub proof fn queue_counts_its_messages(ops: Seq<Operation>)
    requires
        admissible(QueueView::empty(), ops),
    ensures
        run(QueueView::empty(), ops).len() == added(ops) - removed(QueueView::empty(), ops),
{
    empty_is_well_formed();
    messages_are_conserved(QueueView::empty(), ops);
}

/// Acknowledging twice is acknowledging once: the second time the queue
/// stays as it is.
pub proof fn delete_is_idempotent(queue: QueueView, ids: Seq<Seq<char>>)
    ensures
        queue.delete(ids).delete(ids) == queue.delete(ids),
{
    assert(queue.delete(ids).in_flight.remove_keys(named_ids(ids)) =~= queue.delete(ids).in_flight);
}

/// Acknowledging identifiers of which none names a leased message leaves
/// the queue as it is.
pub proof fn delete_of_unleased_changes_nothing(queue: QueueView, ids: Seq<Seq<char>>)
    requires
        forall|i: int|
            0 <= i < ids.len() ==> match named_id(#[trigger] ids[i]) {
                Some(id) => !queue.in_flight.contains_key(id),
                None => true,
            },
    ensures
        queue.delete(ids) == queue,
{
    assert forall|id: u128| named_ids(ids).contains(id) implies !queue.in_flight.contains_key(id) by {
        let i = choose|i: int| 0 <= i < ids.len() && named_id(#[trigger] ids[i]) == Some(id);
    }
    assert(queue.in_flight.remove_keys(named_ids(ids)) =~= queue.in_flight);
}

/// Releasing a leased message by its identifier puts it at the tail of the
/// waiting messages, ready, with its identifier and its body as they were
/// and one more retry counted.
pub proof fn retry_returns_message(queue: QueueView, text: Seq<char>, id: u128)
    requires
        named_id(text) == Some(id),
        queue.in_flight.contains_key(id),
        queue.in_flight[id].retry_count < i32::MAX,
    ensures
        queue.retry(seq![text]).ready == queue.ready.push(
            MessageView {
                state: MessageState::Ready,
                retry_count: queue.in_flight[id].retry_count + 1,
                ..queue.in_flight[id]
            },
        ),
        queue.retry(seq![text]).in_flight == queue.in_flight.remove(id),
{
    let ids = seq![text];
    assert(ids.drop_last() =~= Seq::<Seq<char>>::empty());
    assert(queue.retry(ids.drop_last()) == queue);
    assert(ids.last() == text);
}

/// A message that is leased and then released by its identifier can be
/// leased again: it waits at the tail of the queue as it was before the
/// lease, but for one more retry counted, and nothing else has changed.
pub proof fn lease_then_retry(queue: QueueView, text: Seq<char>)
    requires
        queue.well_formed(),
        queue.ready.len() > 0,
        named_id(text) == Some(queue.ready[0].id),
        queue.ready[0].retry_count < i32::MAX,
    ensures
        queue.lease(1).retry(seq![text]) == (QueueView {
            ready: queue.ready.skip(1).push(
                MessageView { retry_count: queue.ready[0].retry_count + 1, ..queue.ready[0] },
            ),
            in_flight: queue.in_flight,
        }),
        queue.lease(1).retry(seq![text]).batch(queue.ready.len()).last() == (MessageView {
            state: MessageState::Processing,
            retry_count: queue.ready[0].retry_count + 1,
            ..queue.ready[0]
        }),
{
    let msg = queue.ready[0];
    let leased = queue.lease(1);
    lease_is_exclusive(queue, 1);
    assert(queue.batch(1)[0] == msg.leased());
    assert(queue.batch(1) =~= seq![msg.leased()]);
    assert(queue.batch(1).drop_last() =~= Seq::<MessageView>::empty());
    assert(hold(queue.in_flight, queue.batch(1).drop_last()) == queue.in_flight);
    assert(queue.batch(1).last() == msg.leased());
    assert(leased.in_flight == queue.in_flight.insert(msg.id, msg.leased()));
    retry_returns_message(leased, text, msg.id);
    assert(leased.in_flight.remove(msg.id) =~= queue.in_flight);
    assert(msg.state == MessageState::Ready);
}

/// Showing the head of the queue shows the messages that a lease of as
/// many would take, as they wait: the first of the queue, in order.
pub proof fn peek_shows_the_head(queue: QueueView, count: nat)
    ensures
        queue.peek(count).len() == queue.available(count),
        forall|i: int| 0 <= i < queue.peek(count).len() ==> queue.peek(count)[i] == queue.ready[i],
        queue.batch(count) == queue.peek(count).map_values(|msg: MessageView| msg.leased()),
{
}

} // verus!
