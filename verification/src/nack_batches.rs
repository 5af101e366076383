//! Which messages of which batches were negatively acknowledged.
use bit_vec::BitVec;

use crate::bits::{bits_all, bits_clone, bits_from_elem, bits_len, bits_set};
use crate::message::MessageIdData;
use vstd::prelude::*;

verus! {

/// The id of a message that was delivered, and the size of the batch that it came in.
#[derive(Clone, Copy, Debug, PartialEq, Eq, Structural)]
pub struct MessageData {
    pub id: MessageIdData,
    pub batch_size: Option<i32>,
}

/// What is known of the negative acknowledgements of one batch.
#[verifier::ext_equal]
pub struct BatchState {
    /// Whether redelivery of the batch was asked for.
    pub nacked: bool,
    /// For each message of the batch, whether it was negatively acknowledged.
    pub seen: Seq<bool>,
}

impl BatchState {
    /// A batch of `size` messages of which none was negatively acknowledged.
    pub open spec fn fresh(size: i32) -> BatchState {
        BatchState { nacked: false, seen: Seq::new(size as nat, |i: int| false) }
    }

    pub open spec fn complete(self) -> bool {
        crate::bits::all_set(self.seen)
    }
}

/// What is known of each batch, by the id of its entry.
pub type Batches = Map<MessageIdData, BatchState>;

/// Whether `message` is one of several messages of a batch.
pub open spec fn is_batched(message: MessageData) -> bool {
    &&& message.id.batch_index is Some
    &&& message.batch_size is Some
    &&& message.id.batch_index->0 >= 0
    &&& message.batch_size->0 > 1
}

/// What is known of the batch of `message`.
pub open spec fn batch_state(batches: Batches, message: MessageData) -> BatchState {
    if batches.contains_key(message.id.entry()) {
        batches[message.id.entry()]
    } else {
        BatchState::fresh(message.batch_size->0)
    }
}

/// A message of a batch lies within the batch.
pub open spec fn in_bounds(batches: Batches, message: MessageData) -> bool {
    is_batched(message) ==> message.id.batch_index->0 < batch_state(batches, message).seen.len()
}

/// What is known of the batch of `message` once `message` is negatively acknowledged.
pub open spec fn marked(batches: Batches, message: MessageData) -> BatchState {
    BatchState {
        nacked: true,
        seen: batch_state(batches, message).seen.update(message.id.batch_index->0 as int, true),
    }
}

/// The batches after a negative acknowledgement: one that is complete is forgotten.
pub open spec fn after_nack(batches: Batches, message: MessageData) -> Batches {
    if !is_batched(message) {
        batches
    } else if marked(batches, message).complete() {
        batches.remove(message.id.entry())
    } else {
        batches.insert(message.id.entry(), marked(batches, message))
    }
}

/// The id of the entry to redeliver for a negative acknowledgement, unless that entry is waiting
/// for redelivery already.
pub open spec fn nack_of(batches: Batches, message: MessageData) -> Option<MessageIdData> {
    if is_batched(message) && batch_state(batches, message).nacked {
        None
    } else {
        Some(message.id.entry())
    }
}

/// The batches after a list of negative acknowledgements.
pub open spec fn after_nacks(batches: Batches, messages: Seq<MessageData>) -> Batches
    decreases messages.len(),
{
    if messages.len() == 0 {
        batches
    } else {
        after_nack(after_nacks(batches, messages.drop_last()), messages.last())
    }
}

/// The ids of the entries to redeliver for a list of negative acknowledgements.
pub open spec fn nacks_of(batches: Batches, messages: Seq<MessageData>) -> Seq<MessageIdData>
    decreases messages.len(),
{
    if messages.len() == 0 {
        seq![]
    } else {
        let before = nacks_of(batches, messages.drop_last());
        match nack_of(after_nacks(batches, messages.drop_last()), messages.last()) {
            Some(id) => before.push(id),
            None => before,
        }
    }
}

/// Each message of a list lies within its batch when its turn comes.
pub open spec fn all_in_bounds(batches: Batches, messages: Seq<MessageData>) -> bool
    decreases messages.len(),
{
    messages.len() == 0 || {
        &&& all_in_bounds(batches, messages.drop_last())
        &&& in_bounds(after_nacks(batches, messages.drop_last()), messages.last())
    }
}

pub(crate) struct TrackedBatch {
    id: MessageIdData,
    is_nacked: bool,
    seen_messages: BitVec<u32>,
}

impl TrackedBatch {
    pub(crate) closed spec fn state(self) -> BatchState {
        BatchState { nacked: self.is_nacked, seen: crate::bits::bits(self.seen_messages) }
    }
}

/// The batches of which some but not all messages were negatively acknowledged.
pub struct BatchTracker {
    entries: Vec<TrackedBatch>,
}

impl BatchTracker {
    spec fn unique(entries: Seq<TrackedBatch>) -> bool {
        forall|i: int, j: int|
            0 <= i < j < entries.len() ==> (#[trigger] entries[i]).id != (#[trigger] entries[j]).id
    }

    spec fn holds(entries: Seq<TrackedBatch>, id: MessageIdData) -> bool {
        exists|i: int| 0 <= i < entries.len() && (#[trigger] entries[i]).id == id
    }

    spec fn place(entries: Seq<TrackedBatch>, id: MessageIdData) -> int {
        choose|i: int| 0 <= i < entries.len() && (#[trigger] entries[i]).id == id
    }

    spec fn as_map(entries: Seq<TrackedBatch>) -> Batches {
        Map::new(
            |id: MessageIdData| Self::holds(entries, id),
            |id: MessageIdData| entries[Self::place(entries, id)].state(),
        )
    }

    /// No entry is listed twice.
    pub closed spec fn wf(&self) -> bool {
        Self::unique(self.entries@)
    }

    proof fn lemma_lookup(entries: Seq<TrackedBatch>, i: int)
        requires
            Self::unique(entries),
            0 <= i < entries.len(),
        ensures
            Self::as_map(entries).contains_key(entries[i].id),
            Self::as_map(entries)[entries[i].id] == entries[i].state(),
            Self::place(entries, entries[i].id) == i,
    {
        let id = entries[i].id;
        assert(Self::holds(entries, id));
        let p = Self::place(entries, id);
        assert(0 <= p < entries.len() && entries[p].id == id);
        assert(p == i);
    }

    proof fn lemma_push(entries: Seq<TrackedBatch>, e: TrackedBatch)
        requires
            Self::unique(entries),
            !Self::holds(entries, e.id),
        ensures
            Self::unique(entries.push(e)),
            Self::as_map(entries.push(e)) == Self::as_map(entries).insert(e.id, e.state()),
    {
        let after = entries.push(e);
        assert(Self::unique(after)) by {
            assert forall|i: int, j: int| 0 <= i < j < after.len() implies (#[trigger] after[i]).id
                != (#[trigger] after[j]).id by {
                if j == entries.len() {
                    assert(after[i] == entries[i]);
                }
            }
        }
        let expected = Self::as_map(entries).insert(e.id, e.state());
        assert forall|id: MessageIdData|
            #![trigger Self::as_map(after).dom().contains(id)]
            #![trigger expected.dom().contains(id)]
            #![trigger Self::as_map(after)[id]]
            Self::as_map(after).dom().contains(id) == expected.dom().contains(id) && (Self::as_map(
                after,
            ).dom().contains(id) ==> Self::as_map(after)[id] == expected[id]) by {
            Self::lemma_lookup(after, entries.len() as int);
            if Self::holds(entries, id) {
                let p = Self::place(entries, id);
                assert(after[p] == entries[p]);
                Self::lemma_lookup(after, p);
                Self::lemma_lookup(entries, p);
            }
            if Self::holds(after, id) && id != e.id {
                let p = Self::place(after, id);
                assert(entries[p] == after[p]);
            }
        }
        assert(Self::as_map(after) =~= expected);
    }

    proof fn lemma_remove(entries: Seq<TrackedBatch>, i: int)
        requires
            Self::unique(entries),
            0 <= i < entries.len(),
        ensures
            Self::unique(entries.remove(i)),
            Self::as_map(entries.remove(i)) == Self::as_map(entries).remove(entries[i].id),
            !Self::holds(entries.remove(i), entries[i].id),
    {
        let after = entries.remove(i);
        let gone = entries[i].id;
        assert(forall|j: int|
            0 <= j < after.len() ==> (#[trigger] after[j]) == entries[if j < i {
                j
            } else {
                j + 1
            }]);
        assert(Self::unique(after));
        assert(!Self::holds(after, gone)) by {
            if Self::holds(after, gone) {
                let p = Self::place(after, gone);
                let q = if p < i {
                    p
                } else {
                    p + 1
                };
                assert(entries[q].id == gone);
            }
        }
        let expected = Self::as_map(entries).remove(gone);
        assert forall|id: MessageIdData|
            #![trigger Self::as_map(after).dom().contains(id)]
            #![trigger expected.dom().contains(id)]
            #![trigger Self::as_map(after)[id]]
            Self::as_map(after).dom().contains(id) == expected.dom().contains(id) && (Self::as_map(
                after,
            ).dom().contains(id) ==> Self::as_map(after)[id] == expected[id]) by {
            if Self::holds(entries, id) && id != gone {
                let p = Self::place(entries, id);
                let q = if p < i {
                    p
                } else {
                    p - 1
                };
                assert(after[q] == entries[p]);
                Self::lemma_lookup(after, q);
                Self::lemma_lookup(entries, p);
            }
            if Self::holds(after, id) {
                let q = Self::place(after, id);
                let p = if q < i {
                    q
                } else {
                    q + 1
                };
                assert(entries[p].id == id);
            }
        }
        assert(Self::as_map(after) =~= expected);
    }
}

impl View for BatchTracker {
    type V = Batches;

    closed spec fn view(&self) -> Batches {
        BatchTracker::as_map(self.entries@)
    }
}

impl BatchTracker {
    /// No batch is tracked.
    pub fn new() -> (r: BatchTracker)
        ensures
            r.wf(),
            r@ == Batches::empty(),
    {
        let r = BatchTracker { entries: Vec::new() };
        assert(r@ =~= Batches::empty());
        r
    }

    fn find(&self, id: MessageIdData) -> (r: Option<usize>)
        ensures
            match r {
                Some(i) => i < self.entries@.len() && self.entries@[i as int].id == id,
                None => !Self::holds(self.entries@, id),
            },
    {
        let mut i: usize = 0;
        while i < self.entries.len()
            invariant
                i <= self.entries@.len(),
                forall|j: int| 0 <= j < i ==> (#[trigger] self.entries@[j]).id != id,
            decreases self.entries@.len() - i,
        {
            if self.entries[i].id == id {
                return Some(i);
            }
            i = i + 1;
        }
        None
    }

    /// Whether a message lies within its batch.
    pub fn accepts(&self, message: MessageData) -> (r: bool)
        requires
            self.wf(),
        ensures
            r == in_bounds(self@, message),
    {
        match (message.id.batch_index, message.batch_size) {
            (Some(index), Some(size)) => {
                if index < 0 || size <= 1 {
                    return true;
                }
                let id = MessageIdData { batch_index: None, ..message.id };
                match self.find(id) {
                    Some(i) => {
                        proof {
                            Self::lemma_lookup(self.entries@, i as int);
                        }
                        (index as usize) < bits_len(&self.entries[i].seen_messages)
                    },
                    None => index < size,
                }
            },
            _ => true,
        }
    }

    /// Records a negative acknowledgement. Returns the id of the entry to redeliver, unless that
    /// was asked for already.
    pub fn should_nack(&mut self, message: MessageData) -> (r: Option<MessageIdData>)
        requires
            old(self).wf(),
            in_bounds(old(self)@, message),
        ensures
            final(self).wf(),
            final(self)@ == after_nack(old(self)@, message),
            r == nack_of(old(self)@, message),
    {
        let id = MessageIdData { batch_index: None, ..message.id };
        match (message.id.batch_index, message.batch_size) {
            (Some(index), Some(size)) => {
                if index < 0 || size <= 1 {
                    return Some(id);
                }
                let ghost before = self.entries@;
                let mut batch = match self.find(id) {
                    Some(i) => {
                        proof {
                            Self::lemma_lookup(before, i as int);
                            Self::lemma_remove(before, i as int);
                        }
                        self.entries.remove(i)
                    },
                    None => TrackedBatch {
                        id,
                        is_nacked: false,
                        seen_messages: bits_from_elem(size as usize, false),
                    },
                };
                assert(batch.state() =~= batch_state(old(self)@, message));
                assert(Self::as_map(self.entries@) =~= old(self)@.remove(id));
                let should_nack: bool = !batch.is_nacked;
                bits_set(&mut batch.seen_messages, index as usize, true);
                batch.is_nacked = true;
                assert(batch.state() =~= marked(old(self)@, message));
                let complete: bool = bits_all(&batch.seen_messages);
                assert(complete == marked(old(self)@, message).complete());
                if !complete {
                    proof {
                        Self::lemma_push(self.entries@, batch);
                    }
                    self.entries.push(batch);
                    assert(old(self)@.remove(id).insert(id, batch.state()) =~= old(self)@.insert(
                        id,
                        batch.state(),
                    ));
                }
                if should_nack {
                    Some(id)
                } else {
                    None
                }
            },
            _ => Some(id),
        }
    }

    /// Records a list of negative acknowledgements. Returns the ids of the entries to redeliver.
    pub fn should_nack_all(&mut self, messages: &Vec<MessageData>) -> (r: Vec<MessageIdData>)
        requires
            old(self).wf(),
            all_in_bounds(old(self)@, messages@),
        ensures
            final(self).wf(),
            final(self)@ == after_nacks(old(self)@, messages@),
            r@ == nacks_of(old(self)@, messages@),
    {
        let mut ids: Vec<MessageIdData> = Vec::new();
        let mut i: usize = 0;
        while i < messages.len()
            invariant
                i <= messages@.len(),
                self.wf(),
                all_in_bounds(old(self)@, messages@),
                self@ == after_nacks(old(self)@, messages@.take(i as int)),
                ids@ == nacks_of(old(self)@, messages@.take(i as int)),
            decreases messages@.len() - i,
        {
            proof {
                lemma_all_in_bounds_take(old(self)@, messages@, i + 1);
                assert(messages@.take(i + 1).drop_last() =~= messages@.take(i as int));
            }
            match self.should_nack(messages[i]) {
                Some(id) => {
                    ids.push(id);
                },
                None => {},
            }
            i = i + 1;
        }
        assert(messages@.take(i as int) =~= messages@);
        ids
    }

    /// A tracker of the same batches.
    pub fn copy(&self) -> (r: BatchTracker)
        requires
            self.wf(),
        ensures
            r.wf(),
            r@ == self@,
    {
        let mut r = BatchTracker { entries: Vec::new() };
        let mut i: usize = 0;
        while i < self.entries.len()
            invariant
                i <= self.entries@.len(),
                r.entries@.len() == i,
                forall|j: int|
                    0 <= j < i ==> (#[trigger] r.entries@[j]).id == self.entries@[j].id
                        && r.entries@[j].state() == self.entries@[j].state(),
            decreases self.entries@.len() - i,
        {
            let batch = &self.entries[i];
            let seen_messages = bits_clone(&batch.seen_messages);
            r.entries.push(
                TrackedBatch { id: batch.id, is_nacked: batch.is_nacked, seen_messages },
            );
            i = i + 1;
        }
        proof {
            let a = self.entries@;
            let b = r.entries@;
            assert(Self::unique(b));
            assert forall|id: MessageIdData|
                #![trigger Self::as_map(a).dom().contains(id)]
                #![trigger Self::as_map(b).dom().contains(id)]
                #![trigger Self::as_map(b)[id]]
                Self::as_map(a).dom().contains(id) == Self::as_map(b).dom().contains(id) && (
                Self::as_map(a).dom().contains(id) ==> Self::as_map(a)[id] == Self::as_map(
                    b,
                )[id]) by {
                if Self::holds(a, id) {
                    let p = Self::place(a, id);
                    assert(b[p].id == id);
                    Self::lemma_lookup(a, p);
                    Self::lemma_lookup(b, p);
                }
                if Self::holds(b, id) {
                    let p = Self::place(b, id);
                    assert(a[p].id == id);
                }
            }
            assert(Self::as_map(a) =~= Self::as_map(b));
        }
        r
    }

    /// Whether each message of a list lies within its batch when its turn comes.
    pub fn accepts_all(&self, messages: &Vec<MessageData>) -> (r: bool)
        requires
            self.wf(),
        ensures
            r == all_in_bounds(self@, messages@),
    {
        let mut trial = self.copy();
        let mut i: usize = 0;
        while i < messages.len()
            invariant
                i <= messages@.len(),
                trial.wf(),
                trial@ == after_nacks(self@, messages@.take(i as int)),
                all_in_bounds(self@, messages@.take(i as int)),
            decreases messages@.len() - i,
        {
            assert(messages@.take(i + 1).drop_last() =~= messages@.take(i as int));
            if !trial.accepts(messages[i]) {
                proof {
                    if all_in_bounds(self@, messages@) {
                        lemma_all_in_bounds_take(self@, messages@, i + 1);
                    }
                }
                return false;
            }
            let _ = trial.should_nack(messages[i]);
            i = i + 1;
        }
        assert(messages@.take(i as int) =~= messages@);
        true
    }
}

proof fn lemma_all_in_bounds_take(batches: Batches, messages: Seq<MessageData>, n: int)
    requires
        all_in_bounds(batches, messages),
        0 <= n <= messages.len(),
    ensures
        all_in_bounds(batches, messages.take(n)),
    decreases messages.len(),
{
    if n < messages.len() {
        lemma_all_in_bounds_take(batches, messages.drop_last(), n);
        assert(messages.drop_last().take(n) =~= messages.take(n));
    } else {
        assert(messages.take(n) =~= messages);
    }
}

/// Every batch that is tracked waits for redelivery, and some message of it was not negatively
/// acknowledged yet.
pub open spec fn tracked_wait(batches: Batches) -> bool {
    forall|id: MessageIdData| #[trigger]
        batches.contains_key(id) ==> batches[id].nacked && !batches[id].complete()
}

/// A negative acknowledgement keeps it so that every tracked batch waits for redelivery. A
/// message of such a batch asks for nothing; any other message asks for its entry.
pub proof fn nack_keeps_tracked_waiting(batches: Batches, message: MessageData)
    requires
        tracked_wait(batches),
    ensures
        tracked_wait(Batches::empty()),
        tracked_wait(after_nack(batches, message)),
        nack_of(batches, message) == (if is_batched(message) && batches.contains_key(
            message.id.entry(),
        ) {
            None::<MessageIdData>
        } else {
            Some(message.id.entry())
        }),
{
}

/// A negative acknowledgement changes nothing of any other batch.
pub proof fn nack_leaves_other_batches(batches: Batches, message: MessageData, id: MessageIdData)
    requires
        id != message.id.entry(),
    ensures
        after_nack(batches, message).contains_key(id) == batches.contains_key(id),
        batches.contains_key(id) ==> after_nack(batches, message)[id] == batches[id],
{
}

/// All messages are of the batch of `size` messages that is stored in entry `id`.
pub open spec fn of_batch(messages: Seq<MessageData>, id: MessageIdData, size: i32) -> bool {
    forall|i: int|
        0 <= i < messages.len() ==> {
            &&& (#[trigger] messages[i]).id.ledger_id == id.ledger_id
            &&& messages[i].id.entry_id == id.entry_id
            &&& messages[i].id.partition == id.partition
            &&& id.batch_index is None
            &&& size > 1
            &&& messages[i].id.batch_index is Some
            &&& 0 <= messages[i].id.batch_index->0 < size
            &&& messages[i].batch_size == Some(size)
        }
}

/// Some message has index `index`.
pub open spec fn has_index(messages: Seq<MessageData>, index: int) -> bool {
    exists|i: int|
        0 <= i < messages.len() && (#[trigger] messages[i]).id.batch_index is Some
            && messages[i].id.batch_index->0 == index
}

/// Every message of a batch of `size` messages is among these.
pub open spec fn covers(messages: Seq<MessageData>, size: i32) -> bool {
    forall|index: int| 0 <= index < size ==> #[trigger] has_index(messages, index)
}

/// However many messages of a batch are negatively acknowledged, and in whatever order, the batch
/// is redelivered once: the first of them asks for it and the others ask for nothing, until the
/// batch is complete. Only then is it forgotten.
pub proof fn batch_is_nacked_once(
    batches: Batches,
    messages: Seq<MessageData>,
    id: MessageIdData,
    size: i32,
)
    requires
        !batches.contains_key(id),
        messages.len() > 0,
        of_batch(messages, id, size),
        forall|n: int| 0 < n < messages.len() ==> !covers(#[trigger] messages.take(n), size),
    ensures
        all_in_bounds(batches, messages),
        nacks_of(batches, messages) == seq![id],
        after_nacks(batches, messages).contains_key(id) <==> !covers(messages, size),
{
    lemma_nacked_once(batches, messages, id, size);
}

proof fn lemma_nacked_once(
    batches: Batches,
    messages: Seq<MessageData>,
    id: MessageIdData,
    size: i32,
)
    requires
        !batches.contains_key(id),
        of_batch(messages, id, size),
        forall|n: int| 0 < n < messages.len() ==> !covers(#[trigger] messages.take(n), size),
    ensures
        all_in_bounds(batches, messages),
        messages.len() > 0 ==> nacks_of(batches, messages) == seq![id],
        messages.len() > 0 ==> (after_nacks(batches, messages).contains_key(id) <==> !covers(
            messages,
            size,
        )),
        after_nacks(batches, messages).contains_key(id) ==> ({
            let state = after_nacks(batches, messages)[id];
            &&& state.nacked
            &&& state.seen.len() == size
            &&& forall|index: int|
                0 <= index < size ==> (#[trigger] state.seen[index] <==> has_index(
                    messages,
                    index,
                ))
        }),
    decreases messages.len(),
{
    if messages.len() > 0 {
        let front = messages.drop_last();
        let last = messages.last();
        assert forall|n: int| 0 < n < front.len() implies !covers(#[trigger] front.take(n), size) by {
            assert(front.take(n) =~= messages.take(n));
        }
        lemma_nacked_once(batches, front, id, size);
        assert(is_batched(messages[messages.len() - 1]));
        if front.len() > 0 {
            assert(front =~= messages.take(front.len() as int));
            assert(after_nacks(batches, front).contains_key(id));
        } else {
            assert(after_nacks(batches, front) == batches);
            assert(nacks_of(batches, front) =~= seq![]);
        }
        let before = after_nacks(batches, front);
        let state = marked(before, last);
        assert(last.id.entry() == id);
        assert forall|index: int| 0 <= index < size implies (#[trigger] state.seen[index]
            <==> has_index(messages, index)) by {
            if has_index(front, index) {
                let i = choose|i: int|
                    0 <= i < front.len() && (#[trigger] front[i]).id.batch_index is Some
                        && front[i].id.batch_index->0 == index;
                assert(messages[i] == front[i]);
            }
            if has_index(messages, index) && index != last.id.batch_index->0 {
                let i = choose|i: int|
                    0 <= i < messages.len() && (#[trigger] messages[i]).id.batch_index is Some
                        && messages[i].id.batch_index->0 == index;
                assert(front[i] == messages[i]);
            }
            if index == last.id.batch_index->0 {
                assert(messages[messages.len() - 1] == last);
            }
        }
        assert(state.complete() <==> covers(messages, size)) by {
            if state.complete() {
                assert forall|index: int| 0 <= index < size implies #[trigger] has_index(
                    messages,
                    index,
                ) by {
                    assert(state.seen[index]);
                }
            }
            if covers(messages, size) {
                assert forall|index: int| 0 <= index < state.seen.len() implies state.seen[index] by {
                    assert(has_index(messages, index));
                }
            }
        }
        assert(nacks_of(batches, messages) =~= seq![id]);
    }
}

/// The id of an entry is that of any message in it, without the place in the batch.
pub proof fn entry_keeps_ledger_entry_and_partition(id: MessageIdData)
    ensures
        id.entry().ledger_id == id.ledger_id,
        id.entry().entry_id == id.entry_id,
        id.entry().partition == id.partition,
        id.entry().batch_index is None,
{
}

/// A message that is the only one of its batch, or of none, always asks for its entry, and nothing
/// is remembered of it.
pub proof fn messages_outside_of_batches_ask_each_time(
    batches: Batches,
    message: MessageData,
    entry: MessageIdData,
)
    requires
        entry.ledger_id == message.id.ledger_id,
        entry.entry_id == message.id.entry_id,
        entry.partition == message.id.partition,
        entry.batch_index is None,
        message.id.batch_index is None || message.batch_size is None || message.id.batch_index->0
            < 0 || message.batch_size->0 <= 1,
    ensures
        nack_of(batches, message) == Some(entry),
        after_nack(batches, message) == batches,
        in_bounds(batches, message),
{
}

/// The first message of a batch of several that is negatively acknowledged, whichever it is, and
/// whatever ledger, entry and partition it has, asks for its entry. From then on the batch is
/// remembered, with this message as the only one.
pub proof fn first_message_of_a_batch_asks(
    batches: Batches,
    message: MessageData,
    entry: MessageIdData,
    index: i32,
    size: i32,
)
    requires
        entry.ledger_id == message.id.ledger_id,
        entry.entry_id == message.id.entry_id,
        entry.partition == message.id.partition,
        entry.batch_index is None,
        message.id.batch_index == Some(index),
        message.batch_size == Some(size),
        0 <= index < size,
        size > 1,
        !batches.contains_key(entry),
    ensures
        in_bounds(batches, message),
        nack_of(batches, message) == Some(entry),
        after_nack(batches, message).contains_key(entry),
        after_nack(batches, message)[entry].nacked,
        after_nack(batches, message)[entry].seen.len() == size,
        forall|i: int|
            0 <= i < size ==> (#[trigger] after_nack(batches, message)[entry].seen[i] <==> i
                == index),
{
    let other = if index == 0 {
        1int
    } else {
        0int
    };
    assert(!marked(batches, message).seen[other]);
}

/// A further message of a batch that was asked for asks for nothing. It is remembered with the
/// others, until all messages of the batch were negatively acknowledged; then the batch is
/// forgotten.
pub proof fn further_messages_of_a_batch_ask_for_nothing(
    batches: Batches,
    message: MessageData,
    entry: MessageIdData,
    index: i32,
    size: i32,
)
    requires
        entry.ledger_id == message.id.ledger_id,
        entry.entry_id == message.id.entry_id,
        entry.partition == message.id.partition,
        entry.batch_index is None,
        message.id.batch_index == Some(index),
        message.batch_size == Some(size),
        size > 1,
        batches.contains_key(entry),
        batches[entry].nacked,
        0 <= index < batches[entry].seen.len(),
    ensures
        in_bounds(batches, message),
        nack_of(batches, message) is None,
        (forall|i: int| 0 <= i < batches[entry].seen.len() && i != index ==> batches[entry].seen[i])
            ==> !after_nack(batches, message).contains_key(entry),
        (exists|i: int|
            0 <= i < batches[entry].seen.len() && i != index && !batches[entry].seen[i]) ==> {
            &&& after_nack(batches, message).contains_key(entry)
            &&& after_nack(batches, message)[entry].nacked
            &&& after_nack(batches, message)[entry].seen == batches[entry].seen.update(
                index as int,
                true,
            )
        },
{
    let seen = batches[entry].seen;
    let now = marked(batches, message).seen;
    assert(now == seen.update(index as int, true));
    if exists|i: int| 0 <= i < seen.len() && i != index && !seen[i] {
        let i = choose|i: int| 0 <= i < seen.len() && i != index && !seen[i];
        assert(!now[i]);
    }
}

/// A message lies within its batch exactly if its index is below the size at which the batch is
/// remembered, or, if it is not, below the size that the message has.
pub proof fn messages_beyond_their_batch_are_out_of_bounds(
    batches: Batches,
    message: MessageData,
    entry: MessageIdData,
    index: i32,
    size: i32,
)
    requires
        entry.ledger_id == message.id.ledger_id,
        entry.entry_id == message.id.entry_id,
        entry.partition == message.id.partition,
        entry.batch_index is None,
        message.id.batch_index == Some(index),
        message.batch_size == Some(size),
        index >= 0,
        size > 1,
    ensures
        batches.contains_key(entry) ==> (in_bounds(batches, message) <==> index
            < batches[entry].seen.len()),
        !batches.contains_key(entry) ==> (in_bounds(batches, message) <==> index < size),
{
}

/// A list of negative acknowledgements is taken message by message, in order: what the messages of
/// a second list ask for comes behind what those of the first do, and rests on what was remembered
/// of those.
pub proof fn lists_are_taken_in_order(
    batches: Batches,
    first: Seq<MessageData>,
    second: Seq<MessageData>,
)
    ensures
        nacks_of(batches, first + second) == nacks_of(batches, first) + nacks_of(
            after_nacks(batches, first),
            second,
        ),
        after_nacks(batches, first + second) == after_nacks(after_nacks(batches, first), second),
        all_in_bounds(batches, first + second) <==> all_in_bounds(batches, first) && all_in_bounds(
            after_nacks(batches, first),
            second,
        ),
    decreases second.len(),
{
    if second.len() == 0 {
        assert(first + second =~= first);
        assert(nacks_of(batches, first) + nacks_of(after_nacks(batches, first), second)
            =~= nacks_of(batches, first));
    } else {
        let front = second.drop_last();
        lists_are_taken_in_order(batches, first, front);
        assert((first + second).drop_last() =~= first + front);
        assert((first + second).last() == second.last());
        let middle = after_nacks(batches, first);
        match nack_of(after_nacks(middle, front), second.last()) {
            Some(id) => {
                assert((nacks_of(batches, first) + nacks_of(middle, front)).push(id) =~= nacks_of(
                    batches,
                    first,
                ) + nacks_of(middle, front).push(id));
            },
            None => {},
        }
    }
}

/// A list of one message asks for what the message asks for.
pub proof fn list_of_one_is_its_message(batches: Batches, message: MessageData)
    ensures
        nacks_of(batches, seq![message]) == (match nack_of(batches, message) {
            Some(id) => seq![id],
            None => seq![],
        }),
        after_nacks(batches, seq![message]) == after_nack(batches, message),
        all_in_bounds(batches, seq![message]) <==> in_bounds(batches, message),
        nacks_of(batches, seq![]) == Seq::<MessageIdData>::empty(),
        after_nacks(batches, seq![]) == batches,
{
    let one = seq![message];
    let none = Seq::<MessageData>::empty();
    assert(one.drop_last() =~= none);
    assert(after_nacks(batches, none) == batches);
    assert(nacks_of(batches, none) =~= Seq::<MessageIdData>::empty());
    assert(all_in_bounds(batches, none));
    assert(nacks_of(batches, one) =~= (match nack_of(batches, message) {
        Some(id) => seq![id],
        None => seq![],
    }));
}

} // verus!
