//! Unpacking of batched entries.
use std::collections::VecDeque;

use crate::error::ConnectionError;
use crate::message::{
    BatchedMessage, BatchedMessageView, MessageIdData, Metadata, MetadataView, Payload, PayloadView,
};
use vstd::prelude::*;

verus! {

/// The messages of one entry that are still to be delivered.
pub struct BatchedMessageIterator {
    messages: VecDeque<BatchedMessage>,
    message_id: MessageIdData,
    metadata: Metadata,
    total_messages: u32,
    current_index: u32,
}

#[verifier::ext_equal]
pub struct BatchView {
    pub messages: Seq<BatchedMessageView>,
    pub message_id: MessageIdData,
    pub metadata: MetadataView,
    pub total_messages: u32,
    pub current_index: u32,
}

/// What a list of batched messages holds.
pub open spec fn batch_views(messages: Seq<BatchedMessage>) -> Seq<BatchedMessageView> {
    messages.map_values(|m: BatchedMessage| m@)
}

/// A message of a batch as it is delivered: the metadata of the entry, except for what the
/// message has of its own, and the content of the message.
pub open spec fn merged(metadata: MetadataView, message: BatchedMessageView) -> PayloadView {
    PayloadView {
        metadata: MetadataView {
            properties: message.properties,
            partition_key: message.partition_key,
            event_time: message.event_time,
            ..metadata
        },
        data: message.payload,
    }
}

impl BatchView {
    /// A batch of which nothing was delivered yet.
    pub open spec fn start(
        message_id: MessageIdData,
        metadata: MetadataView,
        total_messages: u32,
        messages: Seq<BatchedMessageView>,
    ) -> BatchView {
        BatchView { messages, message_id, metadata, total_messages, current_index: 0 }
    }

    pub open spec fn wf(self) -> bool {
        self.current_index <= self.total_messages
    }

    /// What the next step delivers.
    pub open spec fn item(self) -> Option<(MessageIdData, PayloadView)> {
        if self.current_index < self.total_messages && self.messages.len() > 0 {
            Some(
                (
                    self.message_id.at(self.current_index),
                    merged(self.metadata, self.messages[0]),
                ),
            )
        } else {
            None
        }
    }

    /// What is left after the next step.
    pub open spec fn rest(self) -> BatchView {
        if self.current_index < self.total_messages {
            BatchView {
                messages: if self.messages.len() > 0 {
                    self.messages.drop_first()
                } else {
                    self.messages
                },
                current_index: (self.current_index + 1) as u32,
                ..self
            }
        } else {
            self
        }
    }

    /// What is left after `n` steps.
    pub open spec fn after(self, n: nat) -> BatchView
        decreases n,
    {
        if n == 0 {
            self
        } else {
            self.after((n - 1) as nat).rest()
        }
    }

    /// How many messages a fresh batch delivers.
    pub open spec fn size(self) -> nat {
        if self.messages.len() < self.total_messages {
            self.messages.len()
        } else {
            self.total_messages as nat
        }
    }
}

impl View for BatchedMessageIterator {
    type V = BatchView;

    closed spec fn view(&self) -> BatchView {
        BatchView {
            messages: batch_views(self.messages@),
            message_id: self.message_id,
            metadata: self.metadata@,
            total_messages: self.total_messages,
            current_index: self.current_index,
        }
    }
}

impl BatchedMessageIterator {
    /// Starts on the messages that were found in an entry.
    pub fn from_parsed(
        message_id: MessageIdData,
        metadata: Metadata,
        total_messages: u32,
        messages: Vec<BatchedMessage>,
    ) -> (r: BatchedMessageIterator)
        ensures
            r@ == BatchView::start(
                message_id,
                metadata@,
                total_messages,
                batch_views(messages@),
            ),
            r@.wf(),
    {
        let mut queue: VecDeque<BatchedMessage> = VecDeque::new();
        let mut left = messages;
        while left.len() > 0
            invariant
                left@ + queue@ =~= messages@,
            decreases left.len(),
        {
            match left.pop() {
                Some(message) => {
                    queue.push_front(message);
                },
                None => {},
            }
        }
        assert(queue@ =~= messages@);
        BatchedMessageIterator {
            messages: queue,
            message_id,
            metadata,
            total_messages,
            current_index: 0,
        }
    }

    /// Takes an entry apart: `parse` is given the number of messages that the metadata
    /// announces and the content of the entry.
    pub fn new<P: Fn(u32, &Vec<u8>) -> Result<Vec<BatchedMessage>, ConnectionError>>(
        message_id: MessageIdData,
        payload: Payload,
        parse: &P,
    ) -> (r: Result<BatchedMessageIterator, ConnectionError>)
        requires
            payload.metadata.num_messages_in_batch is Some,
            call_requires(
                parse,
                (payload.metadata.num_messages_in_batch->0 as u32, &payload.data),
            ),
        ensures
            exists|parsed: Result<Vec<BatchedMessage>, ConnectionError>|
                {
                    &&& #[trigger] call_ensures(
                        parse,
                        (payload.metadata.num_messages_in_batch->0 as u32, &payload.data),
                        parsed,
                    )
                    &&& match parsed {
                        Ok(messages) => r matches Ok(batch) && batch@ == BatchView::start(
                            message_id,
                            payload.metadata@,
                            payload.metadata.num_messages_in_batch->0 as u32,
                            batch_views(messages@),
                        ) && batch@.wf(),
                        Err(e) => r == Err::<BatchedMessageIterator, ConnectionError>(e),
                    }
                },
    {
        let total_messages: u32 = payload.metadata.num_messages_in_batch.unwrap() as u32;
        let parsed = parse(total_messages, &payload.data);
        assert(call_ensures(parse, (total_messages, &payload.data), parsed));
        match parsed {
            Ok(messages) => Ok(
                BatchedMessageIterator::from_parsed(
                    message_id,
                    payload.metadata,
                    total_messages,
                    messages,
                ),
            ),
            Err(e) => Err(e),
        }
    }

    /// Delivers the next message, with its own id and metadata.
    pub fn next(&mut self) -> (r: Option<(MessageIdData, Payload)>)
        requires
            old(self)@.wf(),
        ensures
            final(self)@ == old(self)@.rest(),
            final(self)@.wf(),
            match r {
                Some((id, payload)) => old(self)@.item() == Some((id, payload@)),
                None => old(self)@.item() is None,
            },
    {
        let remaining: u32 = self.total_messages - self.current_index;
        if remaining == 0 {
            return None;
        }
        let index: u32 = self.current_index;
        self.current_index = self.current_index + 1;
        let ghost before = self.messages@;
        match self.messages.pop_front() {
            Some(message) => {
                assert(batch_views(self.messages@) =~= batch_views(before).drop_first());
                let id = MessageIdData { batch_index: Some(index as i32), ..self.message_id };
                let metadata = self.metadata.clone();
                let metadata = Metadata {
                    properties: message.metadata.properties,
                    partition_key: message.metadata.partition_key,
                    event_time: message.metadata.event_time,
                    ..metadata
                };
                Some((id, Payload { metadata, data: message.payload }))
            },
            None => None,
        }
    }
}

/// A fresh batch delivers its messages in order, each once and under its own index, as many as
/// it holds and the metadata announces; after that it delivers nothing.
pub proof fn batch_delivers_in_order(batch: BatchView, n: nat)
    requires
        batch.current_index == 0,
    ensures
        n < batch.size() ==> batch.after(n).item() == Some(
            (batch.message_id.at(n as u32), merged(batch.metadata, batch.messages[n as int])),
        ),
        n >= batch.size() ==> batch.after(n).item() is None,
        batch.after(n).wf(),
{
    lemma_after(batch, n);
}

proof fn lemma_after(batch: BatchView, n: nat)
    requires
        batch.current_index == 0,
    ensures
        ({
            let a = batch.after(n);
            &&& a.message_id == batch.message_id
            &&& a.metadata == batch.metadata
            &&& a.total_messages == batch.total_messages
            &&& a.current_index == if n < batch.total_messages {
                n
            } else {
                batch.total_messages as nat
            }
            &&& n <= batch.size() ==> a.messages == batch.messages.skip(n as int)
            &&& n >= batch.size() ==> a.messages.len() == 0 || a.current_index
                == a.total_messages
        }),
    decreases n,
{
    if n == 0 {
        assert(batch.messages.skip(0) =~= batch.messages);
    } else {
        let m = (n - 1) as nat;
        lemma_after(batch, m);
        if n <= batch.size() {
            assert(batch.messages.skip(m as int).drop_first() =~= batch.messages.skip(n as int));
        }
    }
}

/// Two messages of one batch have different ids, of the same entry.
pub proof fn batch_ids_are_distinct(batch: BatchView, i: nat, j: nat)
    requires
        batch.current_index == 0,
        i < j < batch.size(),
    ensures
        (batch.after(i).item()->0).0 != (batch.after(j).item()->0).0,
        (batch.after(i).item()->0).0.entry() == batch.message_id.entry(),
{
    batch_delivers_in_order(batch, i);
    batch_delivers_in_order(batch, j);
    let a = i as u32;
    let b = j as u32;
    assert(a as i32 != b as i32) by (bit_vector)
        requires
            a != b,
    ;
}

/// The message that a batch delivers next, in full: its id is that of the entry with its own index,
/// its content, properties, key and event time are its own, and everything else is the entry's.
pub proof fn next_message_in_full(batch: BatchView)
    ensures
        batch.current_index < batch.total_messages && batch.messages.len() > 0 ==> {
            &&& batch.item() is Some
            &&& (batch.item()->0).0.ledger_id == batch.message_id.ledger_id
            &&& (batch.item()->0).0.entry_id == batch.message_id.entry_id
            &&& (batch.item()->0).0.partition == batch.message_id.partition
            &&& (batch.item()->0).0.batch_index == Some(batch.current_index as i32)
            &&& (batch.item()->0).1.data == batch.messages[0].payload
            &&& (batch.item()->0).1.metadata.properties == batch.messages[0].properties
            &&& (batch.item()->0).1.metadata.partition_key == batch.messages[0].partition_key
            &&& (batch.item()->0).1.metadata.event_time == batch.messages[0].event_time
            &&& (batch.item()->0).1.metadata.producer_name == batch.metadata.producer_name
            &&& (batch.item()->0).1.metadata.sequence_id == batch.metadata.sequence_id
            &&& (batch.item()->0).1.metadata.publish_time == batch.metadata.publish_time
            &&& (batch.item()->0).1.metadata.replicated_from == batch.metadata.replicated_from
            &&& (batch.item()->0).1.metadata.compression == batch.metadata.compression
            &&& (batch.item()->0).1.metadata.uncompressed_size == batch.metadata.uncompressed_size
            &&& (batch.item()->0).1.metadata.num_messages_in_batch
                == batch.metadata.num_messages_in_batch
            &&& batch.rest().messages == batch.messages.drop_first()
            &&& batch.rest().current_index == batch.current_index + 1
        },
        batch.current_index >= batch.total_messages || batch.messages.len() == 0
            ==> batch.item() is None,
        batch.rest().message_id == batch.message_id,
        batch.rest().metadata == batch.metadata,
        batch.rest().total_messages == batch.total_messages,
{
}

/// A batch that begins has everything that was found in its entry before it, in order.
pub proof fn batch_begins_with_all_its_messages(
    message_id: MessageIdData,
    metadata: MetadataView,
    total_messages: u32,
    messages: Seq<BatchedMessage>,
)
    ensures
        ({
            let batch = BatchView::start(
                message_id,
                metadata,
                total_messages,
                batch_views(messages),
            );
            &&& batch.current_index == 0
            &&& batch.total_messages == total_messages
            &&& batch.message_id == message_id
            &&& batch.metadata == metadata
            &&& batch.messages.len() == messages.len()
            &&& forall|i: int|
                0 <= i < messages.len() ==> {
                    &&& (#[trigger] batch.messages[i]).payload == messages[i].payload@
                    &&& batch.messages[i].event_time == messages[i].metadata.event_time
                    &&& batch.messages[i].partition_key == crate::message::text_view(
                        messages[i].metadata.partition_key,
                    )
                    &&& batch.messages[i].properties == crate::message::properties_view(
                        messages[i].metadata.properties@,
                    )
                }
        }),
{
}

/// The message at place `n` of a batch that begins is delivered at step `n`, as long as the batch
/// holds that many and announces that many.
pub proof fn each_message_has_its_step(batch: BatchView, n: nat)
    requires
        batch.current_index == 0,
    ensures
        batch.after(n).item() is Some <==> n < batch.messages.len() && n < batch.total_messages,
        batch.after(n).item() matches Some((id, payload)) ==> {
            &&& id.ledger_id == batch.message_id.ledger_id
            &&& id.entry_id == batch.message_id.entry_id
            &&& id.partition == batch.message_id.partition
            &&& id.batch_index == Some(n as u32 as i32)
            &&& payload.data == batch.messages[n as int].payload
            &&& payload.metadata.properties == batch.messages[n as int].properties
            &&& payload.metadata.partition_key == batch.messages[n as int].partition_key
            &&& payload.metadata.event_time == batch.messages[n as int].event_time
            &&& payload.metadata.producer_name == batch.metadata.producer_name
            &&& payload.metadata.sequence_id == batch.metadata.sequence_id
            &&& payload.metadata.publish_time == batch.metadata.publish_time
            &&& payload.metadata.replicated_from == batch.metadata.replicated_from
            &&& payload.metadata.compression == batch.metadata.compression
            &&& payload.metadata.uncompressed_size == batch.metadata.uncompressed_size
            &&& payload.metadata.num_messages_in_batch == batch.metadata.num_messages_in_batch
        },
{
    batch_delivers_in_order(batch, n);
}

} // verus!
