//! What a consumer delivers, in terms of what the broker sent.
use crate::codec::Unpacked;
use crate::consumer::{ConsumerView, Message, PollAction, PollEvent};
use crate::error::{ConnectionError, ConsumerError, Error};
use crate::message::{
    BatchedMessage, BatchedMessageView, CommandMessage, MessageIdData, Payload, RawMessage,
};
use crate::poll::Poll;
use vstd::prelude::*;

verus! {

/// The decoder of a compression makes `bytes` of `data`. Without a compression they are the data.
pub open spec fn decodes_to(compression: Option<i32>, data: Seq<u8>, bytes: Seq<u8>) -> bool {
    match compression {
        None => bytes == data,
        Some(code) => match code {
            0 => bytes == data,
            1 => crate::codec::lz4_decoded(data) == Some(bytes),
            2 => crate::codec::zlib_decoded(data) == Some(bytes),
            3 => crate::codec::zstd_decoded(data) == Some(bytes),
            4 => crate::codec::snappy_decoded(data) == Some(bytes),
            _ => false,
        },
    }
}

/// The decoder of a compression fails on `data`.
pub open spec fn fails_to_decode(compression: Option<i32>, data: Seq<u8>) -> bool {
    match compression {
        None => false,
        Some(code) => match code {
            1 => crate::codec::lz4_decoded(data) is None,
            2 => crate::codec::zlib_decoded(data) is None,
            3 => crate::codec::zstd_decoded(data) is None,
            4 => crate::codec::snappy_decoded(data) is None,
            _ => false,
        },
    }
}

/// Whatever a frame brings, it uses up one permit, and changes nothing else of the consumer but the
/// batch that is being delivered.
pub proof fn frames_use_up_one_permit<
    T,
    P: Fn(u32, &Vec<u8>) -> Result<Vec<BatchedMessage>, ConnectionError>,
>(
    before: ConsumerView,
    frame: RawMessage,
    parse: &P,
    after: ConsumerView,
    action: PollAction<T>,
)
    requires
        before.remaining_messages > 0,
        crate::consumer::poll_step(
            before,
            PollEvent::Received(Poll::Ready(Some(frame))),
            parse,
            after,
            action,
        ),
    ensures
        after.remaining_messages == before.remaining_messages - 1,
        after.topic == before.topic,
        after.id == before.id,
        after.batch_size == before.batch_size,
        after.options == before.options,
        action is Return,
{
}

/// An entry that is no batch is one message: it has the id of the entry, its metadata, and its
/// content, decoded if it is compressed.
pub proof fn single_messages_are_delivered<
    T,
    P: Fn(u32, &Vec<u8>) -> Result<Vec<BatchedMessage>, ConnectionError>,
>(
    before: ConsumerView,
    command: CommandMessage,
    payload: Payload,
    frame: RawMessage,
    bytes: Seq<u8>,
    parse: &P,
    after: ConsumerView,
    action: PollAction<T>,
)
    requires
        before.remaining_messages > 0,
        frame.command.message == Some(command),
        frame.payload == Some(payload),
        decodes_to(payload.metadata.compression, payload.data@, bytes),
        payload.metadata.num_messages_in_batch is None,
        crate::consumer::poll_step(
            before,
            PollEvent::Received(Poll::Ready(Some(frame))),
            parse,
            after,
            action,
        ),
    ensures
        action matches PollAction::Return(Poll::Ready(Some(Ok(message)))) && {
            &&& message.topic@ == before.topic
            &&& message.message_id.id == command.message_id
            &&& message.message_id.batch_size is None
            &&& message.payload.data@ == bytes
            &&& message.payload.metadata@ == payload.metadata@
        },
        after.current == before.current,
{
    let polled = action->Return_0;
    let m = (polled->Ready_0->0)->Ok_0;
    assert(m@.payload == m.payload@);
}

/// The message at place `index` of a batch, as it is delivered: its id is that of the entry with its
/// index, its content, properties, key and event time are its own, and the rest is the entry's.
pub open spec fn is_message_of_batch<T>(
    message: Message<T>,
    topic: Seq<char>,
    id: MessageIdData,
    payload: Payload,
    index: u32,
    own: BatchedMessageView,
) -> bool {
    &&& message.topic@ == topic
    &&& message.message_id.id.ledger_id == id.ledger_id
    &&& message.message_id.id.entry_id == id.entry_id
    &&& message.message_id.id.partition == id.partition
    &&& message.message_id.id.batch_index == Some(index as i32)
    &&& message.message_id.batch_size == payload.metadata.num_messages_in_batch
    &&& message.payload.data@ == own.payload
    &&& message.payload.metadata@.properties == own.properties
    &&& message.payload.metadata@.partition_key == own.partition_key
    &&& message.payload.metadata@.event_time == own.event_time
    &&& message.payload.metadata@.producer_name == payload.metadata@.producer_name
    &&& message.payload.metadata@.sequence_id == payload.metadata@.sequence_id
    &&& message.payload.metadata@.publish_time == payload.metadata@.publish_time
    &&& message.payload.metadata@.replicated_from == payload.metadata@.replicated_from
    &&& message.payload.metadata@.compression == payload.metadata@.compression
    &&& message.payload.metadata@.uncompressed_size == payload.metadata@.uncompressed_size
    &&& message.payload.metadata@.num_messages_in_batch
        == payload.metadata@.num_messages_in_batch
}

/// The batch that is being delivered holds the messages of an entry behind the first.
pub open spec fn holds_the_rest(
    after: ConsumerView,
    id: MessageIdData,
    payload: Payload,
    count: i32,
    messages: Seq<BatchedMessage>,
) -> bool {
    &&& after.current is Some
    &&& after.current->0.message_id == id
    &&& after.current->0.metadata == payload.metadata@
    &&& after.current->0.total_messages == count as u32
    &&& after.current->0.current_index == 1
    &&& after.current->0.messages.len() == messages.len() - 1
    &&& forall|i: int|
        0 <= i < messages.len() - 1 ==> #[trigger] after.current->0.messages[i] == messages[i
            + 1]@
}

/// What becomes of an entry that announces `count` messages once `parse` took it apart: its first
/// message is delivered, and the others wait. An entry without messages brings nothing yet, and one
/// that cannot be taken apart is an error.
pub open spec fn batch_is_taken_apart<T>(
    before: ConsumerView,
    id: MessageIdData,
    payload: Payload,
    count: i32,
    parsed: Result<Vec<BatchedMessage>, ConnectionError>,
    after: ConsumerView,
    action: PollAction<T>,
) -> bool {
    match parsed {
        Ok(messages) => if count != 0 && messages@.len() > 0 {
            &&& action matches PollAction::Return(Poll::Ready(Some(Ok(message))))
            &&& is_message_of_batch(message, before.topic, id, payload, 0, messages@[0]@)
            &&& holds_the_rest(after, id, payload, count, messages@)
        } else {
            &&& action == PollAction::Return(Poll::Pending::<Option<Result<Message<T>, Error>>>)
            &&& after.current is None
        },
        Err(e) => {
            &&& action == PollAction::Return(
                Poll::Ready(Some(Err::<Message<T>, Error>(Error::Connection(e)))),
            )
            &&& after.current == before.current
        },
    }
}

/// Every entry that announces a number of messages is a batch, one that announces a single message
/// included: it is taken apart by `parse`, which is given that number and the content of the entry,
/// decoded if it is compressed.
pub proof fn announced_batches_are_taken_apart<
    T,
    P: Fn(u32, &Vec<u8>) -> Result<Vec<BatchedMessage>, ConnectionError>,
>(
    before: ConsumerView,
    command: CommandMessage,
    payload: Payload,
    frame: RawMessage,
    bytes: Seq<u8>,
    count: i32,
    parse: &P,
    after: ConsumerView,
    action: PollAction<T>,
) -> (r: (Vec<u8>, Result<Vec<BatchedMessage>, ConnectionError>))
    requires
        before.remaining_messages > 0,
        frame.command.message == Some(command),
        frame.payload == Some(payload),
        decodes_to(payload.metadata.compression, payload.data@, bytes),
        payload.metadata.num_messages_in_batch == Some(count),
        crate::consumer::poll_step(
            before,
            PollEvent::Received(Poll::Ready(Some(frame))),
            parse,
            after,
            action,
        ),
    ensures
        r.0@ == bytes,
        call_ensures(parse, (count as u32, &r.0), r.1),
        batch_is_taken_apart(before, command.message_id, payload, count, r.1, after, action),
{
    let plain = crate::message::PayloadView { metadata: payload.metadata@, data: bytes };
    assert(crate::codec::unpacked(payload@) == Unpacked::Plain(plain));
    let id = command.message_id;
    let polled = action->Return_0;
    let (data, parsed) = choose|
        data: Vec<u8>,
        parsed: Result<Vec<BatchedMessage>, ConnectionError>,
    |
        {
            &&& data@ == plain.data
            &&& #[trigger] call_ensures(parse, (count as u32, &data), parsed)
            &&& crate::consumer::parsed_step(before.drained(), id, plain, parsed, after, polled)
        };
    assert(count != 0 ==> count as u32 != 0) by (bit_vector);
    if parsed is Ok {
        let messages = parsed->Ok_0@;
        let views = crate::batch::batch_views(messages);
        if count != 0 && messages.len() > 0 {
            let m = (polled->Ready_0->0)->Ok_0;
            assert(views[0] == messages[0]@);
            assert(m@.payload == m.payload@);
            assert forall|i: int| 0 <= i < messages.len() - 1 implies
                #[trigger] after.current->0.messages[i] == messages[i + 1]@ by {
                assert(views[i + 1] == messages[i + 1]@);
            }
        }
    }
    (data, parsed)
}

/// An entry that its decoder cannot decode is an io error; one whose compression nothing is known
/// of ends the messages. Neither touches the batch that is being delivered.
pub proof fn undecodable_entries_are_refused<
    T,
    P: Fn(u32, &Vec<u8>) -> Result<Vec<BatchedMessage>, ConnectionError>,
>(
    before: ConsumerView,
    command: CommandMessage,
    payload: Payload,
    frame: RawMessage,
    parse: &P,
    after: ConsumerView,
    action: PollAction<T>,
)
    requires
        before.remaining_messages > 0,
        frame.command.message == Some(command),
        frame.payload == Some(payload),
        crate::consumer::poll_step(
            before,
            PollEvent::Received(Poll::Ready(Some(frame))),
            parse,
            after,
            action,
        ),
    ensures
        fails_to_decode(payload.metadata.compression, payload.data@) ==> after.current
            == before.current && (action matches PollAction::Return(
            Poll::Ready(Some(Err(Error::Consumer(ConsumerError::Io(_))))),
        )),
        payload.metadata.compression is Some && !(0 <= payload.metadata.compression->0 <= 4)
            ==> after.current == before.current && action == PollAction::Return(
            Poll::Ready(None::<Result<Message<T>, Error>>),
        ),
{
}

/// A frame without a message or without a payload is an error that says so.
pub proof fn frames_without_payload_are_errors<
    T,
    P: Fn(u32, &Vec<u8>) -> Result<Vec<BatchedMessage>, ConnectionError>,
>(
    before: ConsumerView,
    frame: RawMessage,
    parse: &P,
    after: ConsumerView,
    action: PollAction<T>,
)
    requires
        before.remaining_messages > 0,
        frame.command.message is None || frame.payload is None,
        crate::consumer::poll_step(
            before,
            PollEvent::Received(Poll::Ready(Some(frame))),
            parse,
            after,
            action,
        ),
    ensures
        action matches PollAction::Return(
            Poll::Ready(Some(Err(Error::Consumer(ConsumerError::MissingPayload(text))))),
        ) && text@ == "Missing payload for message Some(None)"@,
        after.current == before.current,
{
}

/// A consumer that is polled first delivers what is left of its current batch, message by message:
/// each under its index, with its own content, properties, key and event time. Only when nothing is
/// left does it look at its connection, and it drops the batch then.
pub proof fn current_batch_comes_first<
    T,
    P: Fn(u32, &Vec<u8>) -> Result<Vec<BatchedMessage>, ConnectionError>,
>(before: ConsumerView, parse: &P, after: ConsumerView, action: PollAction<T>)
    requires
        crate::consumer::poll_step(before, PollEvent::Woken, parse, after, action),
    ensures
        before.current is None ==> action == PollAction::<T>::CheckConnection && after == before,
        before.current matches Some(batch) ==> {
            let more = batch.current_index < batch.total_messages && batch.messages.len() > 0;
            &&& !more ==> action == PollAction::<T>::CheckConnection && after.current is None
            &&& more ==> {
                &&& action matches PollAction::Return(Poll::Ready(Some(Ok(message))))
                &&& message.topic@ == before.topic
                &&& message.message_id.id.ledger_id == batch.message_id.ledger_id
                &&& message.message_id.id.entry_id == batch.message_id.entry_id
                &&& message.message_id.id.partition == batch.message_id.partition
                &&& message.message_id.id.batch_index == Some(batch.current_index as i32)
                &&& message.message_id.batch_size == batch.metadata.num_messages_in_batch
                &&& message.payload.data@ == batch.messages[0].payload
                &&& message.payload.metadata@.properties == batch.messages[0].properties
                &&& message.payload.metadata@.partition_key == batch.messages[0].partition_key
                &&& message.payload.metadata@.event_time == batch.messages[0].event_time
                &&& message.payload.metadata@.producer_name == batch.metadata.producer_name
                &&& message.payload.metadata@.sequence_id == batch.metadata.sequence_id
                &&& message.payload.metadata@.publish_time == batch.metadata.publish_time
                &&& message.payload.metadata@.replicated_from == batch.metadata.replicated_from
                &&& message.payload.metadata@.compression == batch.metadata.compression
                &&& message.payload.metadata@.uncompressed_size
                    == batch.metadata.uncompressed_size
                &&& message.payload.metadata@.num_messages_in_batch
                    == batch.metadata.num_messages_in_batch
                &&& after.current is Some
                &&& after.current->0.messages == batch.messages.drop_first()
                &&& after.current->0.current_index == batch.current_index + 1
                &&& after.current->0.total_messages == batch.total_messages
                &&& after.current->0.message_id == batch.message_id
                &&& after.current->0.metadata == batch.metadata
            }
        },
        after.topic == before.topic,
        after.id == before.id,
        after.batch_size == before.batch_size,
        after.remaining_messages == before.remaining_messages,
        after.options == before.options,
{
    if before.current_message() is Some {
        let m = (action->Return_0->Ready_0->0)->Ok_0;
        assert(m@.payload == m.payload@);
    }
}

/// A connection that is not valid any more fails the poll with its error, if it has one. Otherwise,
/// when fewer than half of the messages that the broker may send ahead are left, the consumer
/// permits as many as bring it back to the full number, and else receives.
pub proof fn connection_is_looked_at<
    T,
    P: Fn(u32, &Vec<u8>) -> Result<Vec<BatchedMessage>, ConnectionError>,
>(
    before: ConsumerView,
    valid: bool,
    error: Option<ConnectionError>,
    parse: &P,
    after: ConsumerView,
    action: PollAction<T>,
)
    requires
        before.remaining_messages <= before.batch_size,
        crate::consumer::poll_step(
            before,
            PollEvent::Connection { valid, error },
            parse,
            after,
            action,
        ),
    ensures
        after == before,
        !valid && error is Some ==> action == PollAction::Return(
            Poll::Ready(
                Some(
                    Err::<Message<T>, Error>(Error::Consumer(ConsumerError::Connection(error->0))),
                ),
            ),
        ),
        (valid || error is None) && before.remaining_messages < before.batch_size / 2 ==> {
            &&& action matches PollAction::SendFlow(flow)
            &&& flow.consumer_id == before.id
            &&& flow.message_permits + before.remaining_messages == before.batch_size
        },
        (valid || error is None) && before.remaining_messages >= before.batch_size / 2 ==> action
            == PollAction::<T>::Receive,
{
}

/// Once permits were sent, the broker may send the full number again; if they could not be sent the
/// poll fails and nothing changes.
pub proof fn sent_permits_fill_up<
    T,
    P: Fn(u32, &Vec<u8>) -> Result<Vec<BatchedMessage>, ConnectionError>,
>(
    before: ConsumerView,
    sent: Result<(), ConnectionError>,
    parse: &P,
    after: ConsumerView,
    action: PollAction<T>,
)
    requires
        crate::consumer::poll_step(before, PollEvent::FlowSent(sent), parse, after, action),
    ensures
        match sent {
            Ok(_) => {
                &&& action == PollAction::<T>::Receive
                &&& after.remaining_messages == before.batch_size
            },
            Err(e) => {
                &&& action == PollAction::Return(
                    Poll::Ready(Some(Err::<Message<T>, Error>(Error::Connection(e)))),
                )
                &&& after.remaining_messages == before.remaining_messages
            },
        },
        after.topic == before.topic,
        after.id == before.id,
        after.batch_size == before.batch_size,
        after.options == before.options,
        after.current == before.current,
{
}

/// While no frame comes the poll waits; where none will come the consumer is disconnected.
pub proof fn silence_is_waited_for<
    T,
    P: Fn(u32, &Vec<u8>) -> Result<Vec<BatchedMessage>, ConnectionError>,
>(before: ConsumerView, ended: bool, parse: &P, after: ConsumerView, action: PollAction<T>)
    requires
        crate::consumer::poll_step(
            before,
            PollEvent::Received(
                if ended {
                    Poll::Ready(None)
                } else {
                    Poll::Pending
                },
            ),
            parse,
            after,
            action,
        ),
    ensures
        after == before,
        !ended ==> action == PollAction::Return(
            Poll::Pending::<Option<Result<Message<T>, Error>>>,
        ),
        ended ==> action == PollAction::Return(
            Poll::Ready(
                Some(
                    Err::<Message<T>, Error>(Error::Connection(ConnectionError::Disconnected)),
                ),
            ),
        ),
{
}

/// Two messages that look the same have the same topic, payload and id.
pub proof fn messages_are_seen_in_full<T>(a: Message<T>, b: Message<T>)
    requires
        a@ == b@,
    ensures
        a.topic@ == b.topic@,
        a.payload@ == b.payload@,
        a.message_id == b.message_id,
{
}

} // verus!
