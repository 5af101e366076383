//! What the operations of this crate give, call by call.
use std::sync::Arc;

use crate::batch::BatchedMessageIterator;
use crate::builder::{ConsumerBuilder, Given, Unset};
use crate::codec::decompress;
use crate::consumer::{
    AckRequest, Consumer, DeserializeMessage, FlowRequest, Message, Opening, PollAction, PollEvent,
    SubscribeRequest,
};
use crate::consumer_set::ConsumerSet;
use crate::error::{ConnectionError, ConsumerError, Error, ServiceDiscoveryError};
use crate::message::{BatchedMessage, MessageIdData, Metadata, Payload, SubType};
use crate::multi::{ConsumerState, MultiEvent, MultiTopicConsumer, Reaction};
use crate::nack::{
    MessageResend, NackAction, NackEvent, NackHandler, NackMessage, Redelivery,
};
use crate::nack_batches::{BatchTracker, MessageData};
use crate::options::ConsumerOptions;
use crate::poll::Poll;
use crate::refresh::Refresh;
use crate::request::ConsumerRequest;
use crate::service_discovery::{
    convert_lookup_response, partition_address, BrokerAddress, CommandLookupTopicResponse,
    CommandPartitionedTopicMetadataResponse, Lookup, LookupAction, LookupEvent, LookupResponse,
    ServiceDiscovery,
};
use crate::time::{Duration, Timestamp};
use vstd::prelude::*;

verus! {

/// A consumer is opened as it was asked for. It subscribes under its topic, subscription, type, id,
/// name and options. Then the broker is permitted the batch size that was given, or else a thousand
/// messages, and negative acknowledgements wait for the delay that was given. The consumer has that
/// topic, id, batch size and options, and all its permits.
pub proof fn consumers_are_opened_as_asked<T: DeserializeMessage, Io>(
    topic: String,
    subscription: String,
    sub_type: SubType,
    consumer_id: u64,
    consumer_name: Option<String>,
    batch_size: Option<u32>,
    delay: Option<Duration>,
    options: ConsumerOptions,
    opening: Opening,
    request: SubscribeRequest,
    flow: FlowRequest,
    handler: NackHandler,
    io: Io,
    consumer: Consumer<T, Io>,
)
    requires
        call_ensures(
            Consumer::<T, Io>::open,
            (
                topic,
                subscription,
                sub_type,
                consumer_id,
                consumer_name,
                batch_size,
                delay,
                options,
            ),
            (opening, request),
        ),
        call_ensures(
            Opening::on_subscribed,
            (&opening, Ok::<(), ConnectionError>(())),
            Ok::<FlowRequest, Error>(flow),
        ),
        call_ensures(
            Opening::on_flow_sent,
            (&opening, Ok::<(), ConnectionError>(())),
            Ok::<NackHandler, Error>(handler),
        ),
        call_ensures(Consumer::<T, Io>::opened, (opening, io), consumer),
    ensures
        request.topic@ == topic@,
        request.subscription@ == subscription@,
        request.sub_type == sub_type,
        request.consumer_id == consumer_id,
        request.consumer_name == consumer_name,
        request.options@ == options@,
        flow.consumer_id == consumer_id,
        batch_size matches Some(size) ==> flow.message_permits == size,
        batch_size is None ==> flow.message_permits == 1000,
        handler@.delay == delay,
        handler@.pending.len() == 0,
        handler@.outgoing.len() == 0,
        handler@.inbound_open,
        handler@.batches == crate::nack_batches::Batches::empty(),
        consumer@.topic == topic@,
        consumer@.id == consumer_id,
        consumer@.batch_size == flow.message_permits,
        consumer@.remaining_messages == flow.message_permits,
        consumer@.options == options@,
        consumer@.current is None,
        consumer.carried() == io,
{
}

/// The same without an id: one is drawn, and everything else is as asked.
pub proof fn consumers_without_an_id_draw_one<T: DeserializeMessage, Io>(
    topic: String,
    subscription: String,
    sub_type: SubType,
    consumer_id: Option<u64>,
    consumer_name: Option<String>,
    batch_size: Option<u32>,
    delay: Option<Duration>,
    options: ConsumerOptions,
    opening: Opening,
    request: SubscribeRequest,
)
    requires
        call_ensures(
            Consumer::<T, Io>::from_connection,
            (
                topic,
                subscription,
                sub_type,
                consumer_id,
                consumer_name,
                batch_size,
                delay,
                options,
            ),
            (opening, request),
        ),
    ensures
        consumer_id matches Some(id) ==> request.consumer_id == id,
        consumer_id is None ==> crate::consumer::drawn(request.consumer_id),
        request.topic@ == topic@,
        request.subscription@ == subscription@,
        request.sub_type == sub_type,
        request.consumer_name == consumer_name,
        request.options@ == options@,
        opening@.topic == topic@,
        opening@.consumer_id == request.consumer_id,
        batch_size matches Some(size) ==> opening@.batch_size == size,
        batch_size is None ==> opening@.batch_size == 1000,
        opening@.delay == delay,
        opening@.options == options@,
{
}

/// Opening fails where the broker does not answer, or the first permits cannot be sent, and says
/// which of the two.
pub proof fn opening_fails_with_the_connection(
    opening: Opening,
    error: ConnectionError,
    subscribed: Result<FlowRequest, Error>,
    flowed: Result<NackHandler, Error>,
)
    requires
        call_ensures(
            Opening::on_subscribed,
            (&opening, Err::<(), ConnectionError>(error)),
            subscribed,
        ),
        call_ensures(
            Opening::on_flow_sent,
            (&opening, Err::<(), ConnectionError>(error)),
            flowed,
        ),
    ensures
        subscribed == Err::<FlowRequest, Error>(Error::Connection(error)),
        flowed == Err::<NackHandler, Error>(Error::Consumer(ConsumerError::Connection(error))),
{
}

/// A message is acknowledged, acknowledged with all before it, and negatively acknowledged under its
/// own id, for the consumer that it is given to. The two acknowledgements differ in nothing else. A
/// message that is dropped is reported as if negatively acknowledged, unless it was settled.
pub proof fn acknowledgements_name_the_message<T: DeserializeMessage, Io>(
    consumer: &Consumer<T, Io>,
    msg: &Message<T>,
    settled: bool,
    one: AckRequest,
    all: AckRequest,
    nack: NackMessage,
    dropped: Option<NackMessage>,
)
    requires
        call_ensures(Consumer::<T, Io>::ack, (consumer, msg), one),
        call_ensures(Consumer::<T, Io>::cumulative_ack, (consumer, msg), all),
        call_ensures(Consumer::<T, Io>::nack, (consumer, msg), nack),
        call_ensures(Consumer::<T, Io>::dropped, (consumer, msg, settled), dropped),
    ensures
        one.consumer_id == consumer@.id,
        one.message_ids@ == seq![msg.message_id.id],
        !one.cumulative,
        all.consumer_id == one.consumer_id,
        all.message_ids@ == one.message_ids@,
        all.cumulative,
        nack.consumer_id == consumer@.id,
        nack.message_ids@ == seq![msg.message_id],
        settled ==> dropped is None,
        !settled ==> dropped is Some && dropped->0.consumer_id == nack.consumer_id
            && dropped->0.message_ids@ == nack.message_ids@,
{
}

/// A message that is dropped without being settled is reported for the consumer that is named.
pub proof fn dropped_messages_are_reported<T>(
    msg: &Message<T>,
    consumer_id: u64,
    settled: bool,
    r: Option<NackMessage>,
)
    requires
        call_ensures(Message::<T>::dropped, (msg, consumer_id, settled), r),
    ensures
        settled <==> r is None,
        r matches Some(report) ==> report.consumer_id == consumer_id && report.message_ids@ == seq![
            msg.message_id,
        ],
{
}

/// A message that a consumer makes has its topic, the id and payload that it is given, and the size
/// of the batch that the payload announces.
pub proof fn messages_are_made_of_id_and_payload<T: DeserializeMessage, Io>(
    consumer: &Consumer<T, Io>,
    id: MessageIdData,
    payload: Payload,
    message: Message<T>,
)
    requires
        call_ensures(Consumer::<T, Io>::create_message, (consumer, id, payload), message),
    ensures
        message.topic@ == consumer@.topic,
        message.message_id.id == id,
        message.message_id.batch_size == payload.metadata.num_messages_in_batch,
        message.payload@ == payload@,
{
    assert(message@.topic == message.topic@);
    assert(message@.payload == message.payload@);
}

/// A consumer that is polled takes the step that [`crate::consumer::poll_step`] describes, and keeps
/// what it carries.
pub proof fn consumers_take_their_steps<
    T: DeserializeMessage,
    Io,
    P: Fn(u32, &Vec<u8>) -> Result<Vec<BatchedMessage>, ConnectionError>,
>()
    ensures
        forall|c: &mut Consumer<T, Io>, event: PollEvent, parse: &P, action: PollAction<T>|
            #[trigger] call_ensures(Consumer::<T, Io>::poll_next::<P>, (c, event, parse), action)
                ==> crate::consumer::poll_step((*c)@, event, parse, final(c)@, action)
                && final(c).carried() == (*c).carried(),
{
}

/// A payload is decompressed by the decoder of the compression that it names, whatever else its
/// metadata say, and keeps its metadata. A decoder that fails is an error, and a compression that
/// nothing is known of is told apart.
pub proof fn payloads_are_decompressed(
    payload: Payload,
    r: Result<Option<Payload>, ConsumerError>,
    bytes: Seq<u8>,
)
    requires
        call_ensures(decompress, (payload,), r),
    ensures
        crate::consumer_laws::decodes_to(payload.metadata.compression, payload.data@, bytes)
            ==> r is Ok && r->Ok_0 is Some && r->Ok_0->0.data@ == bytes && r->Ok_0->0.metadata@
            == payload.metadata@,
        crate::consumer_laws::fails_to_decode(payload.metadata.compression, payload.data@)
            ==> r matches Err(ConsumerError::Io(_)),
        payload.metadata.compression is Some && !(0 <= payload.metadata.compression->0 <= 4)
            ==> r matches Ok(None),
{
}

/// A batch begins with all messages that were found in it, and its steps take them out one by one.
pub proof fn batches_hold_what_was_found(
    id: MessageIdData,
    metadata: Metadata,
    total: u32,
    messages: Vec<BatchedMessage>,
    batch: BatchedMessageIterator,
)
    requires
        call_ensures(
            BatchedMessageIterator::from_parsed,
            (id, metadata, total, messages),
            batch,
        ),
    ensures
        batch@.message_id == id,
        batch@.metadata == metadata@,
        batch@.total_messages == total,
        batch@.current_index == 0,
        batch@.messages.len() == messages@.len(),
        forall|i: int|
            0 <= i < messages@.len() ==> #[trigger] batch@.messages[i] == messages@[i]@,
        forall|b: &mut BatchedMessageIterator, r: Option<(MessageIdData, Payload)>|
            #[trigger] call_ensures(BatchedMessageIterator::next, (b,), r) ==> {
                let was = (*b)@;
                let more = was.current_index < was.total_messages && was.messages.len() > 0;
                &&& r is Some <==> more
                &&& r matches Some((message_id, payload)) ==> {
                    &&& message_id.ledger_id == was.message_id.ledger_id
                    &&& message_id.entry_id == was.message_id.entry_id
                    &&& message_id.partition == was.message_id.partition
                    &&& message_id.batch_index == Some(was.current_index as i32)
                    &&& payload.data@ == was.messages[0].payload
                    &&& payload.metadata@.properties == was.messages[0].properties
                    &&& payload.metadata@.partition_key == was.messages[0].partition_key
                    &&& payload.metadata@.event_time == was.messages[0].event_time
                    &&& final(b)@.messages == was.messages.drop_first()
                    &&& final(b)@.current_index == was.current_index + 1
                }
            },
{
    assert forall|b: &mut BatchedMessageIterator, r: Option<(MessageIdData, Payload)>|
        #[trigger] call_ensures(BatchedMessageIterator::next, (b,), r) implies {
        let was = (*b)@;
        let more = was.current_index < was.total_messages && was.messages.len() > 0;
        &&& r is Some <==> more
        &&& r matches Some((message_id, payload)) ==> {
            &&& message_id.ledger_id == was.message_id.ledger_id
            &&& message_id.entry_id == was.message_id.entry_id
            &&& message_id.partition == was.message_id.partition
            &&& message_id.batch_index == Some(was.current_index as i32)
            &&& payload.data@ == was.messages[0].payload
            &&& payload.metadata@.properties == was.messages[0].properties
            &&& payload.metadata@.partition_key == was.messages[0].partition_key
            &&& payload.metadata@.event_time == was.messages[0].event_time
            &&& final(b)@.messages == was.messages.drop_first()
            &&& final(b)@.current_index == was.current_index + 1
        }
    } by {
        if let Some((message_id, payload)) = r {
            assert(payload@.metadata == payload.metadata@);
        }
    }
}

/// The id of a message is that of its entry, with its place in the batch.
pub open spec fn is_entry_of(entry: MessageIdData, id: MessageIdData) -> bool {
    &&& entry.ledger_id == id.ledger_id
    &&& entry.entry_id == id.entry_id
    &&& entry.partition == id.partition
    &&& entry.batch_index is None
}

/// The first negative acknowledgement of a batch of several messages asks for its entry, whatever
/// the partition; while the batch is not complete, every later one asks for nothing. A message
/// outside of such a batch always asks for its entry.
pub proof fn batches_are_asked_for_once(entry: MessageIdData)
    ensures
        forall|t: &mut BatchTracker, m: MessageData, r: Option<MessageIdData>|
            #[trigger] call_ensures(BatchTracker::should_nack, (t, m), r) && is_entry_of(
                entry,
                m.id,
            ) ==> {
                let several = m.id.batch_index is Some && m.batch_size is Some
                    && m.id.batch_index->0 >= 0 && m.batch_size->0 > 1;
                &&& !several ==> r == Some(entry) && final(t)@ == (*t)@
                &&& several && !(*t)@.contains_key(entry) ==> r == Some(entry)
                &&& several && (*t)@.contains_key(entry) && (*t)@[entry].nacked ==> r is None
                &&& several && !(*t)@.contains_key(entry) && m.id.batch_index->0 < m.batch_size->0
                    ==> {
                    &&& final(t)@.contains_key(entry)
                    &&& final(t)@[entry].nacked
                    &&& final(t)@[entry].seen.len() == m.batch_size->0
                    &&& final(t)@[entry].seen[m.id.batch_index->0 as int]
                }
            },
{
    assert forall|t: &mut BatchTracker, m: MessageData, r: Option<MessageIdData>|
        #[trigger] call_ensures(BatchTracker::should_nack, (t, m), r) && is_entry_of(
            entry,
            m.id,
        ) implies {
        let several = m.id.batch_index is Some && m.batch_size is Some && m.id.batch_index->0 >= 0
            && m.batch_size->0 > 1;
        &&& !several ==> r == Some(entry) && final(t)@ == (*t)@
        &&& several && !(*t)@.contains_key(entry) ==> r == Some(entry)
        &&& several && (*t)@.contains_key(entry) && (*t)@[entry].nacked ==> r is None
        &&& several && !(*t)@.contains_key(entry) && m.id.batch_index->0 < m.batch_size->0 ==> {
            &&& final(t)@.contains_key(entry)
            &&& final(t)@[entry].nacked
            &&& final(t)@[entry].seen.len() == m.batch_size->0
            &&& final(t)@[entry].seen[m.id.batch_index->0 as int]
        }
    } by {
        let several = m.id.batch_index is Some && m.batch_size is Some && m.id.batch_index->0 >= 0
            && m.batch_size->0 > 1;
        if several && !(*t)@.contains_key(entry) && m.id.batch_index->0 < m.batch_size->0 {
            crate::nack_batches::first_message_of_a_batch_asks(
                (*t)@,
                m,
                entry,
                m.id.batch_index->0,
                m.batch_size->0,
            );
        }
    }
}

/// A tracker or handler is told of lists of messages in order, and a copy knows what the tracker
/// knows.
pub proof fn trackers_take_lists_in_order()
    ensures
        forall|t: &mut BatchTracker, messages: &Vec<MessageData>, r: Vec<MessageIdData>|
            #[trigger] call_ensures(BatchTracker::should_nack_all, (t, messages), r) ==> {
                &&& r@ == crate::nack_batches::nacks_of((*t)@, messages@)
                &&& final(t)@ == crate::nack_batches::after_nacks((*t)@, messages@)
            },
        forall|t: &BatchTracker, r: BatchTracker|
            #[trigger] call_ensures(BatchTracker::copy, (t,), r) ==> r@ == t@,
        forall|t: &BatchTracker, m: MessageData, r: bool|
            #[trigger] call_ensures(BatchTracker::accepts, (t, m), r) ==> r
                == crate::nack_batches::in_bounds(t@, m),
        forall|t: &BatchTracker, messages: &Vec<MessageData>, r: bool|
            #[trigger] call_ensures(BatchTracker::accepts_all, (t, messages), r) ==> r
                == crate::nack_batches::all_in_bounds(t@, messages@),
        forall|h: &NackHandler, messages: &Vec<MessageData>, r: bool|
            #[trigger] call_ensures(NackHandler::accepts_all, (h, messages), r) ==> r
                == crate::nack_batches::all_in_bounds(h@.batches, messages@),
        forall|h: &mut NackHandler, m: MessageData, r: Option<MessageIdData>|
            #[trigger] call_ensures(NackHandler::should_nack, (h, m), r) ==> {
                &&& r == crate::nack_batches::nack_of((*h)@.batches, m)
                &&& final(h)@.batches == crate::nack_batches::after_nack((*h)@.batches, m)
                &&& final(h)@.pending == (*h)@.pending
                &&& final(h)@.delay == (*h)@.delay
                &&& final(h)@.outgoing == (*h)@.outgoing
                &&& final(h)@.inbound_open == (*h)@.inbound_open
            },
{
}

/// What is negatively acknowledged when the clock shows `now` waits until the delay is over: it is
/// not collected before, and it is then, with everything else that is due.
pub proof fn nacks_wait_for_the_delay(delay: Option<Duration>, handler: NackHandler)
    requires
        call_ensures(NackHandler::new, (delay,), handler),
    ensures
        handler@.delay == delay,
        handler@.pending.len() == 0,
        handler@.outgoing.len() == 0,
        handler@.inbound_open,
        forall|h: &mut NackHandler, message: NackMessage, now: u128|
            #[trigger] call_ensures(NackHandler::handle_nack_at, (h, message, now), ()) ==> {
                let ids = crate::nack_batches::nacks_of((*h)@.batches, message.message_ids@);
                let kept = (*h)@.delay is Some && ids.len() > 0;
                &&& !kept ==> final(h)@.pending == (*h)@.pending
                &&& kept ==> {
                    &&& final(h)@.pending.len() == (*h)@.pending.len() + 1
                    &&& final(h)@.pending.last().consumer_id == message.consumer_id
                    &&& final(h)@.pending.last().message_ids == ids
                    &&& now + (*h)@.delay->0.secs * 1_000_000_000 + (*h)@.delay->0.subsec_nanos
                        <= u128::MAX ==> final(h)@.pending.last().when == now
                        + (*h)@.delay->0.secs * 1_000_000_000 + (*h)@.delay->0.subsec_nanos
                }
                &&& final(h)@.batches == crate::nack_batches::after_nacks(
                    (*h)@.batches,
                    message.message_ids@,
                )
                &&& final(h)@.delay == (*h)@.delay
                &&& final(h)@.outgoing == (*h)@.outgoing
                &&& final(h)@.inbound_open == (*h)@.inbound_open
            },
        forall|h: &mut NackHandler, now: u128, r: Vec<Redelivery>|
            #[trigger] call_ensures(NackHandler::collect_ready_at, (h, now), r) ==> {
                &&& final(h)@.pending == (*h)@.pending.filter(
                    |resend: crate::nack::ResendView| resend.when > now,
                )
                &&& crate::nack::groups_of(
                    crate::nack::departed(
                        (*h)@.pending,
                        crate::nack::ready((*h)@.pending, now).len(),
                    ),
                    crate::nack::redelivery_views(r@),
                )
                &&& final(h)@.batches == (*h)@.batches
                &&& final(h)@.delay == (*h)@.delay
            },
{
}

/// One resend is taken out exactly if the time of some has come, and then one whose time comes
/// first.
pub proof fn earliest_resend_is_taken_out()
    ensures
        forall|h: &mut NackHandler, now: u128, r: Option<MessageResend>|
            #[trigger] call_ensures(NackHandler::next_ready_resend_at, (h, now), r) ==> {
                &&& r is Some <==> exists|i: int|
                    0 <= i < (*h)@.pending.len() && (#[trigger] (*h)@.pending[i]).when <= now
                &&& r matches Some(resend) ==> {
                    &&& (*h)@.pending.contains(resend@)
                    &&& resend.when <= now
                    &&& forall|i: int|
                        0 <= i < (*h)@.pending.len() ==> resend.when <= (
                        #[trigger] (*h)@.pending[i]).when
                    &&& final(h)@.pending.len() == (*h)@.pending.len() - 1
                }
                &&& r is None ==> final(h)@ == (*h)@
            },
{
    assert forall|h: &mut NackHandler, now: u128, r: Option<MessageResend>|
        #[trigger] call_ensures(NackHandler::next_ready_resend_at, (h, now), r) implies {
        &&& r is Some <==> exists|i: int|
            0 <= i < (*h)@.pending.len() && (#[trigger] (*h)@.pending[i]).when <= now
        &&& r matches Some(resend) ==> {
            &&& (*h)@.pending.contains(resend@)
            &&& resend.when <= now
            &&& forall|i: int|
                0 <= i < (*h)@.pending.len() ==> resend.when <= (#[trigger] (*h)@.pending[i]).when
            &&& final(h)@.pending.len() == (*h)@.pending.len() - 1
        }
        &&& r is None ==> final(h)@ == (*h)@
    } by {
        crate::nack::earliest_resend_leaves((*h)@, now);
        if let Some(resend) = r {
            assert(resend@.when == resend.when);
        }
    }
}

/// The handler takes the steps that [`crate::nack::nack_step`] describes.
pub proof fn handlers_take_their_steps()
    ensures
        forall|h: &mut NackHandler, event: NackEvent, action: NackAction|
            #[trigger] call_ensures(NackHandler::poll, (h, event), action)
                ==> crate::nack::nack_step((*h)@, event, final(h)@, action),
        forall|h: &mut NackHandler, polled: Poll<Option<NackMessage>>, r: Option<NackMessage>|
            #[trigger] call_ensures(NackHandler::next_inbound, (h, polled), r) ==> {
                &&& (*h)@.inbound_open && polled is Ready ==> r == polled->Ready_0
                &&& !(*h)@.inbound_open || polled is Pending ==> r is None
                &&& final(h)@.inbound_open <==> (*h)@.inbound_open && !(polled is Ready
                    && polled->Ready_0 is None)
                &&& final(h)@.pending == (*h)@.pending
            },
{
}

/// What a builder of one topic is given is what the client is asked for; without options, none are
/// asked for.
pub proof fn single_builders_ask_for_what_they_were_given<'a, Client: ?Sized>(
    builder: ConsumerBuilder<'a, Given<String>, Given<String>, Given<SubType>, Client>,
    request: ConsumerRequest,
)
    requires
        call_ensures(
            ConsumerBuilder::<
                'a,
                Given<String>,
                Given<String>,
                Given<SubType>,
                Client,
            >::build,
            (builder,),
            request,
        ),
    ensures
        request.topic@ == builder.topic.0@,
        request.subscription@ == builder.subscription.0@,
        request.sub_type == builder.subscription_type.0,
        request.batch_size == builder.batch_size,
        crate::message::text_view(request.consumer_name) == crate::message::text_view(
            builder.consumer_name,
        ),
        request.consumer_id == builder.consumer_id,
        request.unacked_message_resend_delay == builder.unacked_message_resend_delay,
        builder.consumer_options matches Some(options) ==> request.options@ == options@,
        builder.consumer_options is None ==> request.options@
            == crate::options::OptionsView::none(),
{
    assert(request@.topic == request.topic@);
    assert(request@.subscription == request.subscription@);
    assert(request@.options == request.options@);
}

/// A multi-topic consumer has the namespace, pattern, subscription, type, refresh interval and
/// redelivery delay that its builder was given, or their defaults, and asks for no options.
pub proof fn multi_builders_make_what_they_were_given<
    'a,
    T: DeserializeMessage,
    Io,
    S,
    Client: ?Sized,
>(
    builder: ConsumerBuilder<'a, Given<regex::Regex>, Given<String>, Given<SubType>, Client>,
    consumer: MultiTopicConsumer<T, Io, S>,
)
    requires
        call_ensures(
            ConsumerBuilder::<
                'a,
                Given<regex::Regex>,
                Given<String>,
                Given<SubType>,
                Client,
            >::build::<T, Io, S>,
            (builder,),
            consumer,
        ),
    ensures
        builder.namespace matches Some(namespace) ==> consumer@.namespace == namespace@,
        builder.namespace is None ==> consumer@.namespace == "public/default"@,
        consumer@.pattern == builder.topic.0,
        consumer@.subscription == builder.subscription.0@,
        consumer@.sub_type == builder.subscription_type.0,
        consumer@.delay == builder.unacked_message_resend_delay,
        builder.topic_refresh matches Some(interval) ==> consumer@.topic_refresh == interval,
        builder.topic_refresh is None ==> consumer@.topic_refresh == (Duration {
            secs: 30,
            subsec_nanos: 0,
        }),
        consumer@.options == crate::options::OptionsView::none(),
        consumer@.consumers == Map::<Seq<char>, crate::multi::Member<Io>>::empty(),
        consumer@.queue.len() == 0,
        consumer@.messages_received == 0,
        consumer@.last_message_received is None,
        !consumer@.creating,
        consumer@.streams.len() == 0,
{
}

/// Each setting of a builder sets what it says, and nothing else.
pub proof fn builders_set_one_thing<'a, Topic, Subscription, Kind, Client: ?Sized>(
    builder: ConsumerBuilder<'a, Topic, Subscription, Kind, Client>,
    consumer_id: u64,
    consumer_name: String,
    batch_size: u32,
    options: ConsumerOptions,
    delay: Option<Duration>,
    a: ConsumerBuilder<'a, Topic, Subscription, Kind, Client>,
    b: ConsumerBuilder<'a, Topic, Subscription, Kind, Client>,
    c: ConsumerBuilder<'a, Topic, Subscription, Kind, Client>,
    d: ConsumerBuilder<'a, Topic, Subscription, Kind, Client>,
    e: ConsumerBuilder<'a, Topic, Subscription, Kind, Client>,
)
    requires
        call_ensures(
            ConsumerBuilder::<'a, Topic, Subscription, Kind, Client>::with_consumer_id,
            (builder, consumer_id),
            a,
        ),
        call_ensures(
            ConsumerBuilder::<'a, Topic, Subscription, Kind, Client>::with_consumer_name::<String>,
            (builder, consumer_name),
            b,
        ),
        call_ensures(
            ConsumerBuilder::<'a, Topic, Subscription, Kind, Client>::with_batch_size,
            (builder, batch_size),
            c,
        ),
        call_ensures(
            ConsumerBuilder::<'a, Topic, Subscription, Kind, Client>::with_options,
            (builder, options),
            d,
        ),
        call_ensures(
            ConsumerBuilder::<
                'a,
                Topic,
                Subscription,
                Kind,
                Client,
            >::with_unacked_message_resend_delay,
            (builder, delay),
            e,
        ),
    ensures
        a == (ConsumerBuilder { consumer_id: Some(consumer_id), ..builder }),
        b == (ConsumerBuilder { consumer_name: Some(consumer_name), ..builder }),
        c == (ConsumerBuilder { batch_size: Some(batch_size), ..builder }),
        d == (ConsumerBuilder { consumer_options: Some(options), ..builder }),
        e == (ConsumerBuilder { unacked_message_resend_delay: delay, ..builder }),
{
}

/// A namespace and a refresh interval are set on a builder of many topics, and nothing else is.
pub proof fn multi_builders_set_one_thing<'a, Subscription, Kind, Client: ?Sized>(
    builder: ConsumerBuilder<'a, Given<regex::Regex>, Subscription, Kind, Client>,
    namespace: String,
    interval: Duration,
    a: ConsumerBuilder<'a, Given<regex::Regex>, Subscription, Kind, Client>,
    b: ConsumerBuilder<'a, Given<regex::Regex>, Subscription, Kind, Client>,
)
    requires
        call_ensures(
            ConsumerBuilder::<
                'a,
                Given<regex::Regex>,
                Subscription,
                Kind,
                Client,
            >::with_namespace::<String>,
            (builder, namespace),
            a,
        ),
        call_ensures(
            ConsumerBuilder::<
                'a,
                Given<regex::Regex>,
                Subscription,
                Kind,
                Client,
            >::with_topic_refresh,
            (builder, interval),
            b,
        ),
    ensures
        a == (ConsumerBuilder { namespace: Some(namespace), ..builder }),
        b == (ConsumerBuilder { topic_refresh: Some(interval), ..builder }),
{
}

/// The topic or pattern, the subscription and its type are what they were set to, and no setting is
/// lost when they are set.
pub proof fn builders_keep_their_settings<'a, Client: ?Sized>(
    empty: ConsumerBuilder<'a, Unset, Unset, Unset, Client>,
    client: &'a Client,
    start: ConsumerBuilder<'a, Unset, Unset, Unset, Client>,
    topic: String,
    pattern: regex::Regex,
    subscription: String,
    kind: SubType,
    a: ConsumerBuilder<'a, Given<String>, Unset, Unset, Client>,
    b: ConsumerBuilder<'a, Given<regex::Regex>, Unset, Unset, Client>,
    c: ConsumerBuilder<'a, Unset, Given<String>, Unset, Client>,
    d: ConsumerBuilder<'a, Unset, Unset, Given<SubType>, Client>,
)
    requires
        call_ensures(
            ConsumerBuilder::<'a, Unset, Unset, Unset, Client>::new,
            (client,),
            empty,
        ),
        call_ensures(
            ConsumerBuilder::<'a, Unset, Unset, Unset, Client>::with_topic::<String>,
            (start, topic),
            a,
        ),
        call_ensures(
            ConsumerBuilder::<'a, Unset, Unset, Unset, Client>::multi_topic,
            (start, pattern),
            b,
        ),
        call_ensures(
            ConsumerBuilder::<'a, Unset, Unset, Unset, Client>::with_subscription::<String>,
            (start, subscription),
            c,
        ),
        call_ensures(
            ConsumerBuilder::<'a, Unset, Unset, Unset, Client>::with_subscription_type,
            (start, kind),
            d,
        ),
    ensures
        empty.pulsar == client,
        empty.consumer_id is None,
        empty.consumer_name is None,
        empty.batch_size is None,
        empty.unacked_message_resend_delay is None,
        empty.consumer_options is None,
        empty.namespace is None,
        empty.topic_refresh is None,
        a.topic.0 == topic,
        b.topic.0 == pattern,
        c.subscription.0 == subscription,
        d.subscription_type.0 == kind,
        a.pulsar == start.pulsar && b.pulsar == start.pulsar && c.pulsar == start.pulsar && d.pulsar
            == start.pulsar,
        a.consumer_id == start.consumer_id && b.consumer_id == start.consumer_id && c.consumer_id
            == start.consumer_id && d.consumer_id == start.consumer_id,
        a.consumer_name == start.consumer_name && b.consumer_name == start.consumer_name
            && c.consumer_name == start.consumer_name && d.consumer_name == start.consumer_name,
        a.batch_size == start.batch_size && b.batch_size == start.batch_size && c.batch_size
            == start.batch_size && d.batch_size == start.batch_size,
        a.unacked_message_resend_delay == start.unacked_message_resend_delay,
        b.unacked_message_resend_delay == start.unacked_message_resend_delay,
        c.unacked_message_resend_delay == start.unacked_message_resend_delay,
        d.unacked_message_resend_delay == start.unacked_message_resend_delay,
        a.consumer_options == start.consumer_options && b.consumer_options
            == start.consumer_options && c.consumer_options == start.consumer_options
            && d.consumer_options == start.consumer_options,
        a.namespace == start.namespace && b.namespace == start.namespace && c.namespace
            == start.namespace && d.namespace == start.namespace,
        a.topic_refresh == start.topic_refresh && b.topic_refresh == start.topic_refresh
            && c.topic_refresh == start.topic_refresh && d.topic_refresh == start.topic_refresh,
{
}

/// The consumers that a multi-topic consumer would have created for the topics of its namespace are
/// exactly those of the topics that match its pattern and have none yet, in order, and each has the
/// subscription, type, options and redelivery delay of the multi-topic consumer.
pub proof fn new_topics_get_consumers_with_the_settings<T: DeserializeMessage, Io, S>(
    consumer: &MultiTopicConsumer<T, Io, S>,
    refresh: Refresh,
    topics: Vec<String>,
    requests: Vec<ConsumerRequest>,
    i: int,
    topic: Seq<char>,
)
    requires
        call_ensures(MultiTopicConsumer::<T, Io, S>::refresh, (consumer,), refresh),
        call_ensures(Refresh::requests, (&refresh, topics), requests),
    ensures
        refresh@.namespace == consumer@.namespace,
        0 <= i < requests@.len() ==> {
            &&& requests@[i].subscription@ == consumer@.subscription
            &&& requests@[i].sub_type == consumer@.sub_type
            &&& requests@[i].unacked_message_resend_delay == consumer@.delay
            &&& requests@[i].options@ == consumer@.options
            &&& requests@[i].batch_size is None
            &&& requests@[i].consumer_name is None
            &&& requests@[i].consumer_id is None
            &&& crate::text_list::texts(topics@).contains(requests@[i].topic@)
            &&& crate::pattern::matched(consumer@.pattern).contains(requests@[i].topic@)
            &&& !consumer@.consumers.contains_key(requests@[i].topic@)
        },
        (exists|k: int| 0 <= k < requests@.len() && (#[trigger] requests@[k]).topic@ == topic)
            <==> crate::text_list::texts(topics@).contains(topic) && crate::pattern::matched(
            consumer@.pattern,
        ).contains(topic) && !consumer@.consumers.contains_key(topic),
{
    let names = crate::text_list::texts(topics@);
    let views = crate::refresh::request_views(requests@);
    crate::multi_laws::refresh_carries_the_settings(consumer@, names, i);
    crate::refresh::refresh_asks_for_new_topics(refresh@, names, topic);
    assert(views == refresh@.requests(names));
    assert(views.len() == requests@.len());
    if 0 <= i < requests@.len() {
        assert(views[i] == requests@[i]@);
        assert(requests@[i]@.topic == requests@[i].topic@);
    }
    if exists|k: int| 0 <= k < requests@.len() && (#[trigger] requests@[k]).topic@ == topic {
        let k = choose|k: int| 0 <= k < requests@.len() && (#[trigger] requests@[k]).topic@ == topic;
        assert(views[k].topic == topic);
    }
    if exists|k: int| 0 <= k < views.len() && (#[trigger] views[k]).topic == topic {
        let k = choose|k: int| 0 <= k < views.len() && (#[trigger] views[k]).topic == topic;
        assert(views[k] == requests@[k]@);
        assert(requests@[k].topic@ == topic);
    }
}

/// Whether one topic gets a consumer, given whether its name matches.
pub proof fn one_topic_gets_a_consumer(
    refresh: &Refresh,
    topic: String,
    is_match: bool,
    r: Option<ConsumerRequest>,
)
    requires
        call_ensures(Refresh::request_for, (refresh, topic, is_match), r),
    ensures
        r is Some <==> is_match && !refresh@.existing.contains(topic@),
        r matches Some(request) ==> {
            &&& request.topic@ == topic@
            &&& request.subscription@ == refresh@.subscription
            &&& request.sub_type == refresh@.sub_type
            &&& request.unacked_message_resend_delay == refresh@.delay
            &&& request.options@ == refresh@.options
            &&& request.batch_size is None
            &&& request.consumer_name is None
            &&& request.consumer_id is None
        },
{
    if let Some(request) = r {
        assert(request@.topic == request.topic@);
        assert(request@.subscription == request.subscription@);
        assert(request@.options == request.options@);
    }
}

/// A multi-topic consumer acknowledges a message for the consumer of its topic, and has no such
/// command where that topic has none.
pub proof fn acknowledgements_go_to_the_topic<T: DeserializeMessage, Io, S>(
    consumer: &MultiTopicConsumer<T, Io, S>,
    msg: &Message<T>,
    r: Result<AckRequest, ConnectionError>,
)
    requires
        call_ensures(MultiTopicConsumer::<T, Io, S>::ack, (consumer, msg), r),
    ensures
        r is Ok <==> consumer@.consumers.contains_key(msg.topic@),
        r matches Ok(ack) ==> {
            &&& ack.consumer_id == consumer@.consumers[msg.topic@].consumer.id
            &&& ack.message_ids@ == seq![msg.message_id.id]
            &&& !ack.cumulative
        },
        r matches Err(e) ==> e is Unexpected && e->Unexpected_0@ == "no consumer for topic "@
            + msg.topic@,
{
}

/// The multi-topic consumer takes the steps that [`crate::multi::multi_step`] describes. Adding and
/// dropping consumers, counting messages and keeping streams do what they say, and each change is
/// published if there is a stream.
pub proof fn multi_topic_consumers_take_their_steps<
    T: DeserializeMessage,
    Io,
    S,
    P: Fn(u32, &Vec<u8>) -> Result<Vec<BatchedMessage>, ConnectionError>,
>()
    ensures
        forall|
            c: &mut MultiTopicConsumer<T, Io, S>,
            event: MultiEvent<T, Io>,
            parse: &P,
            r: Reaction<T>,
        |
            #[trigger] call_ensures(
                MultiTopicConsumer::<T, Io, S>::poll_next::<P>,
                (c, event, parse),
                r,
            ) ==> crate::multi::multi_step((*c)@, event, parse, final(c)@, r),
        forall|
            c: &mut MultiTopicConsumer<T, Io, S>,
            new: Vec<Consumer<T, Io>>,
            r: Vec<ConsumerState>,
        |
            #[trigger] call_ensures(MultiTopicConsumer::<T, Io, S>::add_consumers, (c, new), r)
                ==> final(c)@ == (*c)@.added(crate::multi::members(new@)) && final(c)@.publishes(
                r@,
            ),
        forall|c: &mut MultiTopicConsumer<T, Io, S>, topics: &Vec<String>, r: Vec<ConsumerState>|
            #[trigger] call_ensures(
                MultiTopicConsumer::<T, Io, S>::remove_consumers,
                (c, topics),
                r,
            ) ==> final(c)@ == (*c)@.removed(crate::text_list::texts(topics@))
                && final(c)@.publishes(r@),
        forall|c: &mut MultiTopicConsumer<T, Io, S>, now: Timestamp, r: Vec<ConsumerState>|
            #[trigger] call_ensures(
                MultiTopicConsumer::<T, Io, S>::record_message_at,
                (c, now),
                r,
            ) && (*c)@.messages_received < u64::MAX ==> {
                &&& final(c)@.messages_received == (*c)@.messages_received + 1
                &&& final(c)@.last_message_received == Some(now)
                &&& final(c)@.consumers == (*c)@.consumers
                &&& final(c)@.queue == (*c)@.queue
                &&& final(c)@.publishes(r@)
            },
        forall|c: &mut MultiTopicConsumer<T, Io, S>, stream: S|
            #[trigger] call_ensures(
                MultiTopicConsumer::<T, Io, S>::start_state_stream,
                (c, stream),
                (),
            ) ==> final(c)@.streams == (*c)@.streams.push(stream) && final(c)@.consumers
                == (*c)@.consumers && final(c)@.queue == (*c)@.queue,
        forall|c: &mut MultiTopicConsumer<T, Io, S>, alive: &Vec<bool>|
            #[trigger] call_ensures(
                MultiTopicConsumer::<T, Io, S>::retain_streams,
                (c, alive),
                (),
            ) ==> final(c)@.streams == crate::multi::kept((*c)@.streams, alive@)
                && final(c)@.consumers == (*c)@.consumers && final(c)@.queue == (*c)@.queue,
        forall|c: &MultiTopicConsumer<T, Io, S>, r: Vec<ConsumerState>|
            #[trigger] call_ensures(MultiTopicConsumer::<T, Io, S>::send_state, (c,), r) ==> {
                &&& c@.streams.len() == 0 ==> r@.len() == 0
                &&& c@.streams.len() > 0 ==> r@.len() == 1 && c@.describes(r@[0])
            },
{
}

/// A set of consumers holds what was put in last for each topic, until it is taken out, and lists
/// its topics in order.
pub proof fn consumers_are_found_by_topic<T: DeserializeMessage, Io>()
    ensures
        forall|s: &mut ConsumerSet<T, Io>, c: Consumer<T, Io>|
            #[trigger] call_ensures(ConsumerSet::<T, Io>::insert, (s, c), ()) ==> final(s)@
                == (*s)@.insert(c@.topic, c),
        forall|s: &mut ConsumerSet<T, Io>, topic: &str|
            #[trigger] call_ensures(ConsumerSet::<T, Io>::remove, (s, topic), ()) ==> final(s)@
                == (*s)@.remove(topic@),
        forall|s: &ConsumerSet<T, Io>, topic: &str, r: Option<&Consumer<T, Io>>|
            #[trigger] call_ensures(ConsumerSet::<T, Io>::get, (s, topic), r) ==> {
                &&& r is Some <==> s@.contains_key(topic@)
                &&& r is Some ==> *(r->0) == s@[topic@]
            },
        forall|s: &ConsumerSet<T, Io>, r: Vec<String>|
            #[trigger] call_ensures(ConsumerSet::<T, Io>::topics, (s,), r) ==> {
                &&& crate::text_list::in_order(crate::text_list::texts(r@))
                &&& forall|topic: Seq<char>| #[trigger]
                    crate::text_list::texts(r@).contains(topic) <==> s@.contains_key(topic)
            },
{
}

/// A lookup response is taken apart field by field: kind 2, or none, is a refusal with the message
/// of the broker or its error number; any other without an address finds nothing; kind 0 is a
/// redirect; and a flag counts exactly if it is there and set.
pub proof fn responses_are_taken_apart(
    response: &CommandLookupTopicResponse,
    r: Result<LookupResponse, ServiceDiscoveryError>,
)
    requires
        call_ensures(convert_lookup_response, (response,), r),
    ensures
        ({
            let refused = response.response is None || response.response == Some(2i32);
            &&& refused ==> {
                &&& r matches Err(ServiceDiscoveryError::Query(text))
                &&& response.message matches Some(message) ==> text@ == message@
                &&& response.message is None && response.error is Some ==> text@
                    == "server error: "@ + crate::text::signed_decimal(response.error->0 as int)
            }
            &&& !refused && response.broker_service_url is None ==> r == Err::<
                LookupResponse,
                ServiceDiscoveryError,
            >(ServiceDiscoveryError::NotFound)
            &&& !refused && response.broker_service_url is Some ==> {
                &&& r matches Ok(lookup)
                &&& lookup.broker_url@ == response.broker_service_url->0@
                &&& lookup.broker_url_tls is Some <==> response.broker_service_url_tls is Some
                &&& lookup.broker_url_tls is Some ==> lookup.broker_url_tls->0@
                    == response.broker_service_url_tls->0@
                &&& lookup.proxy <==> response.proxy_through_service_url == Some(true)
                &&& lookup.redirect <==> response.response == Some(0i32)
                &&& lookup.authoritative <==> response.authoritative == Some(true)
            }
        }),
{
}

/// A lookup asks for its topic first, without claiming authority unless it is told to, and takes
/// the steps that [`crate::service_discovery::lookup_step`] describes. Without a connection there is
/// none.
pub proof fn lookups_begin_with_a_query<M, Conn>(
    discovery: &ServiceDiscovery<M>,
    topic: String,
    proxied: bool,
    conn: Conn,
    base_url: String,
    authoritative: bool,
    begun: (Lookup<Conn>, LookupAction),
    found: Result<(Lookup<Conn>, LookupAction), ServiceDiscoveryError>,
    lost: Result<(Lookup<Conn>, LookupAction), ServiceDiscoveryError>,
)
    requires
        call_ensures(
            ServiceDiscovery::<M>::lookup::<Conn>,
            (discovery, topic, proxied, conn, base_url, authoritative),
            begun,
        ),
        call_ensures(
            ServiceDiscovery::<M>::lookup_topic::<String, Conn>,
            (discovery, topic, Some((proxied, conn)), base_url),
            found,
        ),
        call_ensures(
            ServiceDiscovery::<M>::lookup_topic::<String, Conn>,
            (discovery, topic, None::<(bool, Conn)>, base_url),
            lost,
        ),
    ensures
        begun.0@.topic == topic@,
        begun.0@.base_url == base_url@,
        begun.0@.proxied_query == proxied,
        begun.0@.conn == conn,
        begun.0@.authoritative == authoritative,
        begun.1 matches LookupAction::Query { topic: name, authoritative: claimed } && name@
            == topic@ && claimed == authoritative,
        found matches Ok(started) && {
            &&& started.0@.topic == topic@
            &&& started.0@.base_url == base_url@
            &&& started.0@.proxied_query == proxied
            &&& started.0@.conn == conn
            &&& !started.0@.authoritative
            &&& started.1 matches LookupAction::Query { topic: name, authoritative: claimed }
                && name@ == topic@ && !claimed
        },
        lost matches Err(ServiceDiscoveryError::Query(text)) && text@ == "unknown broker URL"@,
        forall|l: &mut Lookup<Conn>, event: LookupEvent<Conn>, action: LookupAction|
            #[trigger] call_ensures(Lookup::<Conn>::step, (l, event), action)
                ==> crate::service_discovery::lookup_step((*l)@, event, final(l)@, action),
{
}

/// The number of partitions is what the broker says. Where it says none, its message is the error,
/// or else its error number, if it has one.
pub proof fn partitions_are_counted_by_the_broker<M>(
    discovery: &ServiceDiscovery<M>,
    response: CommandPartitionedTopicMetadataResponse,
    error: ConnectionError,
    r: Result<u32, ServiceDiscoveryError>,
    failed: Result<u32, ServiceDiscoveryError>,
)
    requires
        call_ensures(
            ServiceDiscovery::<M>::lookup_partitioned_topic_number,
            (
                discovery,
                Ok::<CommandPartitionedTopicMetadataResponse, ConnectionError>(response),
            ),
            r,
        ),
        call_ensures(
            ServiceDiscovery::<M>::lookup_partitioned_topic_number,
            (
                discovery,
                Err::<CommandPartitionedTopicMetadataResponse, ConnectionError>(error),
            ),
            failed,
        ),
    ensures
        response.partitions matches Some(n) ==> r == Ok::<u32, ServiceDiscoveryError>(n),
        response.partitions is None ==> (r matches Err(ServiceDiscoveryError::Query(text)) && {
            &&& response.message matches Some(message) ==> text@ == message@
            &&& response.message is None && response.error is None ==> text@ == "server error: "@
                + "None"@
            &&& response.message is None && response.error is Some ==> text@ == "server error: "@
                + ("Some("@ + crate::text::signed_decimal(response.error->0 as int) + ")"@)
        }),
        failed == Err::<u32, ServiceDiscoveryError>(ServiceDiscoveryError::Connection(error)),
{
}

/// The partitions of a topic are named by their numbers, from zero on, and each comes with the
/// address that was found for it.
pub proof fn partitions_are_looked_up_by_number<M>(
    discovery: &ServiceDiscovery<M>,
    topic: String,
    partitions: u32,
    names: Vec<String>,
    i: int,
    address: BrokerAddress,
    pair: Result<(String, BrokerAddress), ServiceDiscoveryError>,
)
    requires
        call_ensures(
            ServiceDiscovery::<M>::lookup_partitioned_topic::<String>,
            (discovery, topic, Ok::<u32, ServiceDiscoveryError>(partitions)),
            Ok::<Vec<String>, ServiceDiscoveryError>(names),
        ),
        call_ensures(
            partition_address,
            (topic, Ok::<BrokerAddress, ServiceDiscoveryError>(address)),
            pair,
        ),
    ensures
        names@.len() == partitions,
        0 <= i < partitions ==> names@[i]@ == topic@ + "-partition-"@ + crate::text::decimal(
            i as nat,
        ),
        pair == Ok::<(String, BrokerAddress), ServiceDiscoveryError>((topic, address)),
{
    let texts = crate::text_list::texts(names@);
    assert(texts == crate::service_discovery::partition_names(topic@, partitions as nat));
    assert(texts.len() == names@.len());
    if 0 <= i < partitions {
        assert(texts[i] == names@[i]@);
    }
}

/// The interface of service discovery keeps its manager.
pub proof fn discovery_keeps_its_manager<M>(manager: Arc<M>, discovery: ServiceDiscovery<M>)
    requires
        call_ensures(ServiceDiscovery::<M>::with_manager, (manager,), discovery),
    ensures
        discovery.managed() == manager,
{
}

/// Numbers are written in decimal, and strings are ordered by their first difference.
pub proof fn texts_are_written_and_ordered(
    n: u32,
    number: String,
    a: &str,
    b: &str,
    less: bool,
)
    requires
        call_ensures(crate::text::decimal_string, (n,), number),
        call_ensures(crate::text::is_text_less, (a, b), less),
    ensures
        crate::text::number(number@) == n,
        less == crate::text::text_less(a@, b@),
{
    crate::text::numerals_read_back(n as nat);
}

/// Durations of seconds and of milliseconds have that length.
pub proof fn durations_have_their_length(
    amount: u64,
    seconds: Duration,
    millis: Duration,
    nanos: u128,
)
    requires
        call_ensures(Duration::from_secs, (amount,), seconds),
        call_ensures(Duration::from_millis, (amount,), millis),
        call_ensures(Duration::as_nanos, (&seconds,), nanos),
    ensures
        seconds.secs == amount,
        seconds.subsec_nanos == 0,
        millis.secs * 1_000_000_000 + millis.subsec_nanos == amount * 1_000_000,
        nanos == amount * 1_000_000_000,
{
}

/// What a consumer is made of can be read, and what it carries can be changed without changing
/// anything else of it.
pub proof fn consumers_can_be_read<T: DeserializeMessage, Io>(
    consumer: &Consumer<T, Io>,
    id: u64,
    topic: &str,
    remaining: u32,
    options: &ConsumerOptions,
    io: &Io,
)
    requires
        call_ensures(Consumer::<T, Io>::id, (consumer,), id),
        call_ensures(Consumer::<T, Io>::topic, (consumer,), topic),
        call_ensures(Consumer::<T, Io>::remaining_messages, (consumer,), remaining),
        call_ensures(Consumer::<T, Io>::options, (consumer,), options),
        call_ensures(Consumer::<T, Io>::io, (consumer,), io),
    ensures
        id == consumer@.id,
        topic@ == consumer@.topic,
        remaining == consumer@.remaining_messages,
        options@ == consumer@.options,
        *io == consumer.carried(),
        forall|c: &mut Consumer<T, Io>, r: &mut Io|
            #[trigger] call_ensures(Consumer::<T, Io>::io_mut, (c,), r) ==> *r == (*c).carried()
                && final(c).carried() == *final(r) && final(c)@ == (*c)@,
{
}

/// A consumer has a message of its current batch ready exactly if one is left in it. The message is
/// the first that is left, under its index, and the batch loses that message; a batch in which none
/// is left is dropped.
pub proof fn current_messages_are_taken_in_turn<T: DeserializeMessage, Io>()
    ensures
        forall|c: &mut Consumer<T, Io>, r: Poll<Message<T>>|
            #[trigger] call_ensures(Consumer::<T, Io>::poll_current_message, (c,), r) ==> {
                let batch = (*c)@.current;
                let more = batch is Some && batch->0.current_index < batch->0.total_messages
                    && batch->0.messages.len() > 0;
                &&& r is Ready <==> more
                &&& r matches Poll::Ready(message) ==> {
                    &&& message.topic@ == (*c)@.topic
                    &&& message.message_id.id.ledger_id == batch->0.message_id.ledger_id
                    &&& message.message_id.id.entry_id == batch->0.message_id.entry_id
                    &&& message.message_id.id.partition == batch->0.message_id.partition
                    &&& message.message_id.id.batch_index == Some(batch->0.current_index as i32)
                    &&& message.message_id.batch_size == batch->0.metadata.num_messages_in_batch
                    &&& message.payload.data@ == batch->0.messages[0].payload
                    &&& final(c)@.current is Some
                    &&& final(c)@.current->0.messages == batch->0.messages.drop_first()
                    &&& final(c)@.current->0.current_index == batch->0.current_index + 1
                }
                &&& !more ==> final(c)@.current is None
                &&& final(c)@.remaining_messages == (*c)@.remaining_messages
                &&& final(c)@.topic == (*c)@.topic
                &&& final(c).carried() == (*c).carried()
            },
{
    assert forall|c: &mut Consumer<T, Io>, r: Poll<Message<T>>|
        #[trigger] call_ensures(Consumer::<T, Io>::poll_current_message, (c,), r) implies {
        let batch = (*c)@.current;
        let more = batch is Some && batch->0.current_index < batch->0.total_messages
            && batch->0.messages.len() > 0;
        &&& r is Ready <==> more
        &&& r matches Poll::Ready(message) ==> {
            &&& message.topic@ == (*c)@.topic
            &&& message.message_id.id.ledger_id == batch->0.message_id.ledger_id
            &&& message.message_id.id.entry_id == batch->0.message_id.entry_id
            &&& message.message_id.id.partition == batch->0.message_id.partition
            &&& message.message_id.id.batch_index == Some(batch->0.current_index as i32)
            &&& message.message_id.batch_size == batch->0.metadata.num_messages_in_batch
            &&& message.payload.data@ == batch->0.messages[0].payload
            &&& final(c)@.current is Some
            &&& final(c)@.current->0.messages == batch->0.messages.drop_first()
            &&& final(c)@.current->0.current_index == batch->0.current_index + 1
        }
        &&& !more ==> final(c)@.current is None
        &&& final(c)@.remaining_messages == (*c)@.remaining_messages
        &&& final(c)@.topic == (*c)@.topic
        &&& final(c).carried() == (*c).carried()
    } by {
        if let Poll::Ready(message) = r {
            assert(message@.topic == message.topic@);
            assert(message@.payload == message.payload@);
        }
    }
}

/// A message is read as its type reads its payload.
pub proof fn messages_are_read_by_their_type<T: DeserializeMessage>(
    message: &Message<T>,
    r: T::Output,
)
    requires
        call_ensures(Message::<T>::deserialize, (message,), r),
    ensures
        call_ensures(T::deserialize_message, (&message.payload,), r),
{
}

/// The timer of negative acknowledgements ticks twice a second.
pub proof fn nacks_tick_twice_a_second(tick: Duration)
    requires
        call_ensures(crate::consumer::nack_tick_delay, (), tick),
    ensures
        2 * (tick.secs * 1_000_000_000 + tick.subsec_nanos) == 1_000_000_000,
{
}

/// What a multi-topic consumer is made of can be read.
pub proof fn multi_topic_consumers_can_be_read<T: DeserializeMessage, Io, S>(
    consumer: &MultiTopicConsumer<T, Io, S>,
    interval: Duration,
    namespace: &str,
    pattern: &regex::Regex,
    received: u64,
    streams: &Vec<S>,
    topic: &str,
    found: Option<&Consumer<T, Io>>,
    polled: Option<&Consumer<T, Io>>,
)
    requires
        call_ensures(MultiTopicConsumer::<T, Io, S>::topic_refresh, (consumer,), interval),
        call_ensures(MultiTopicConsumer::<T, Io, S>::namespace, (consumer,), namespace),
        call_ensures(MultiTopicConsumer::<T, Io, S>::topic_regex, (consumer,), pattern),
        call_ensures(MultiTopicConsumer::<T, Io, S>::messages_received, (consumer,), received),
        call_ensures(MultiTopicConsumer::<T, Io, S>::state_streams, (consumer,), streams),
        call_ensures(MultiTopicConsumer::<T, Io, S>::consumer, (consumer, topic), found),
        call_ensures(MultiTopicConsumer::<T, Io, S>::polled_consumer, (consumer,), polled),
    ensures
        interval == consumer@.topic_refresh,
        namespace@ == consumer@.namespace,
        *pattern == consumer@.pattern,
        received == consumer@.messages_received,
        streams@ == consumer@.streams,
        found is Some <==> consumer@.consumers.contains_key(topic@),
        found matches Some(c) ==> c@ == consumer@.consumers[topic@].consumer && c.carried()
            == consumer@.consumers[topic@].io,
        polled is Some <==> consumer@.round is Some,
        polled matches Some(c) ==> c@ == consumer@.consumers[consumer@.round->0.topic].consumer
            && c.carried() == consumer@.consumers[consumer@.round->0.topic].io,
        forall|m: &mut MultiTopicConsumer<T, Io, S>, r: &mut Io|
            #[trigger] call_ensures(MultiTopicConsumer::<T, Io, S>::polled_io, (m,), r) ==> {
                let polled = (*m)@.round->0.topic;
                &&& *r == (*m)@.consumers[polled].io
                &&& final(m)@.consumers.contains_key(polled)
                &&& final(m)@.consumers[polled].io == *final(r)
                &&& final(m)@.consumers[polled].consumer == (*m)@.consumers[polled].consumer
                &&& final(m)@.consumers.remove(polled) == (*m)@.consumers.remove(polled)
                &&& final(m)@.queue == (*m)@.queue
                &&& final(m)@.round == (*m)@.round
            },
{
    assert forall|m: &mut MultiTopicConsumer<T, Io, S>, r: &mut Io|
        #[trigger] call_ensures(MultiTopicConsumer::<T, Io, S>::polled_io, (m,), r) implies {
        let polled = (*m)@.round->0.topic;
        &&& *r == (*m)@.consumers[polled].io
        &&& final(m)@.consumers.contains_key(polled)
        &&& final(m)@.consumers[polled].io == *final(r)
        &&& final(m)@.consumers[polled].consumer == (*m)@.consumers[polled].consumer
        &&& final(m)@.consumers.remove(polled) == (*m)@.consumers.remove(polled)
        &&& final(m)@.queue == (*m)@.queue
        &&& final(m)@.round == (*m)@.round
    } by {
        let polled = (*m)@.round->0.topic;
        assert(final(m)@.consumers.remove(polled) =~= (*m)@.consumers.remove(polled));
    }
}

/// A message that is received now is counted at the time that the wall clock shows.
pub proof fn messages_are_counted_now<T: DeserializeMessage, Io, S>()
    ensures
        forall|c: &mut MultiTopicConsumer<T, Io, S>, r: Vec<ConsumerState>|
            #[trigger] call_ensures(MultiTopicConsumer::<T, Io, S>::record_message, (c,), r)
                && (*c)@.messages_received < u64::MAX ==> {
                &&& final(c)@.messages_received == (*c)@.messages_received + 1
                &&& final(c)@.last_message_received is Some
                &&& crate::time::utc_showed(final(c)@.last_message_received->0)
                &&& final(c)@.consumers == (*c)@.consumers
                &&& final(c)@.queue == (*c)@.queue
                &&& final(c)@.publishes(r@)
            },
{
}

/// The handler reads its own clock: what it is told of waits from what the clock shows then, and
/// what it takes out is due by what the clock shows then.
pub proof fn handlers_go_by_their_clock()
    ensures
        forall|h: &mut NackHandler, message: NackMessage|
            #[trigger] call_ensures(NackHandler::handle_nack, (h, message), ()) ==> {
                let ids = crate::nack_batches::nacks_of((*h)@.batches, message.message_ids@);
                let kept = (*h)@.delay is Some && ids.len() > 0;
                &&& !kept ==> final(h)@.pending == (*h)@.pending
                &&& kept ==> {
                    &&& final(h)@.pending.len() == (*h)@.pending.len() + 1
                    &&& final(h)@.pending.last().consumer_id == message.consumer_id
                    &&& final(h)@.pending.last().message_ids == ids
                    &&& exists|now: u128| #[trigger]
                        (*h)@.clock.shows(now) && final(h)@.pending.last().when == now
                            + (*h)@.delay->0.secs * 1_000_000_000 + (*h)@.delay->0.subsec_nanos
                }
                &&& final(h)@.batches == crate::nack_batches::after_nacks(
                    (*h)@.batches,
                    message.message_ids@,
                )
                &&& final(h)@.delay == (*h)@.delay
                &&& final(h)@.clock == (*h)@.clock
            },
        forall|h: &mut NackHandler, r: Option<MessageResend>|
            #[trigger] call_ensures(NackHandler::next_ready_resend, (h,), r) ==> {
                &&& r matches Some(resend) ==> {
                    &&& exists|now: u128| #[trigger]
                        (*h)@.clock.shows(now) && resend.when <= now
                    &&& (*h)@.pending.contains(resend@)
                    &&& forall|i: int|
                        0 <= i < (*h)@.pending.len() ==> resend.when <= (
                        #[trigger] (*h)@.pending[i]).when
                    &&& final(h)@.pending.len() == (*h)@.pending.len() - 1
                }
                &&& r is None ==> {
                    &&& final(h)@ == (*h)@
                    &&& exists|now: u128| #[trigger]
                        (*h)@.clock.shows(now) && forall|i: int|
                            0 <= i < (*h)@.pending.len() ==> now < (
                            #[trigger] (*h)@.pending[i]).when
                }
            },
        forall|h: &mut NackHandler, r: Vec<Redelivery>|
            #[trigger] call_ensures(NackHandler::collect_ready, (h,), r) ==> (*h)@.collected(
                final(h)@,
                crate::nack::redelivery_views(r@),
            ),
{
    assert forall|h: &mut NackHandler, message: NackMessage|
        #[trigger] call_ensures(NackHandler::handle_nack, (h, message), ()) implies {
        let ids = crate::nack_batches::nacks_of((*h)@.batches, message.message_ids@);
        let kept = (*h)@.delay is Some && ids.len() > 0;
        &&& !kept ==> final(h)@.pending == (*h)@.pending
        &&& kept ==> {
            &&& final(h)@.pending.len() == (*h)@.pending.len() + 1
            &&& final(h)@.pending.last().consumer_id == message.consumer_id
            &&& final(h)@.pending.last().message_ids == ids
            &&& exists|now: u128| #[trigger]
                (*h)@.clock.shows(now) && final(h)@.pending.last().when == now
                    + (*h)@.delay->0.secs * 1_000_000_000 + (*h)@.delay->0.subsec_nanos
        }
        &&& final(h)@.batches == crate::nack_batches::after_nacks(
            (*h)@.batches,
            message.message_ids@,
        )
        &&& final(h)@.delay == (*h)@.delay
        &&& final(h)@.clock == (*h)@.clock
    } by {
        let now = choose|now: u128|
            (*h)@.clock.shows(now) && final(h)@ == #[trigger] (*h)@.nacked(
                message.consumer_id,
                message.message_ids@,
                now,
            );
        assert((*h)@.clock.shows(now));
    }
    assert forall|h: &mut NackHandler, r: Option<MessageResend>|
        #[trigger] call_ensures(NackHandler::next_ready_resend, (h,), r) implies {
        &&& r matches Some(resend) ==> {
            &&& exists|now: u128| #[trigger] (*h)@.clock.shows(now) && resend.when <= now
            &&& (*h)@.pending.contains(resend@)
            &&& forall|i: int|
                0 <= i < (*h)@.pending.len() ==> resend.when <= (#[trigger] (*h)@.pending[i]).when
            &&& final(h)@.pending.len() == (*h)@.pending.len() - 1
        }
        &&& r is None ==> {
            &&& final(h)@ == (*h)@
            &&& exists|now: u128| #[trigger]
                (*h)@.clock.shows(now) && forall|i: int|
                    0 <= i < (*h)@.pending.len() ==> now < (#[trigger] (*h)@.pending[i]).when
        }
    } by {
        match r {
            Some(resend) => {
                let now = choose|now: u128|
                    (*h)@.clock.shows(now) && #[trigger] (*h)@.is_due(now);
                crate::nack::earliest_resend_leaves((*h)@, now);
                assert(resend@.when == resend.when);
                assert((*h)@.clock.shows(now));
            },
            None => {
                let now = choose|now: u128|
                    (*h)@.clock.shows(now) && !#[trigger] (*h)@.is_due(now);
                crate::nack::earliest_resend_leaves((*h)@, now);
                assert((*h)@.clock.shows(now));
            },
        }
    }
}

/// A look for new topics is made of what it is given, and its namespace can be read.
pub proof fn looks_for_topics_are_made_as_asked(
    namespace: String,
    existing: Vec<String>,
    pattern: regex::Regex,
    subscription: String,
    sub_type: SubType,
    delay: Option<Duration>,
    options: ConsumerOptions,
    refresh: Refresh,
    read: &str,
)
    requires
        call_ensures(
            Refresh::new,
            (namespace, existing, pattern, subscription, sub_type, delay, options),
            refresh,
        ),
        call_ensures(Refresh::namespace, (&refresh,), read),
    ensures
        read@ == namespace@,
        refresh@.wanted == crate::pattern::matched(pattern),
        refresh@.subscription == subscription@,
        refresh@.sub_type == sub_type,
        refresh@.delay == delay,
        refresh@.options == options@,
        forall|topic: Seq<char>| #[trigger]
            refresh@.existing.contains(topic) <==> crate::text_list::texts(
                existing@,
            ).contains(topic),
{
}

/// A list of strings holds a string exactly if one of them is equal to it.
pub proof fn strings_are_found(strings: &Vec<String>, text: &String, r: bool)
    requires
        call_ensures(crate::text_list::holds_text, (strings, text), r),
    ensures
        r <==> exists|i: int| 0 <= i < strings@.len() && (#[trigger] strings@[i])@ == text@,
{
    let texts = crate::text_list::texts(strings@);
    if texts.contains(text@) {
        let i = choose|i: int| 0 <= i < texts.len() && texts[i] == text@;
        assert(strings@[i]@ == text@);
    }
    if exists|i: int| 0 <= i < strings@.len() && (#[trigger] strings@[i])@ == text@ {
        let i = choose|i: int| 0 <= i < strings@.len() && (#[trigger] strings@[i])@ == text@;
        assert(texts[i] == text@);
    }
}

/// A refusal can be explained exactly if the broker gave a message or an error number, and a
/// response that is no refusal needs no explanation.
pub proof fn refusals_are_explained(response: &CommandLookupTopicResponse, r: bool)
    requires
        call_ensures(CommandLookupTopicResponse::is_explained, (response,), r),
    ensures
        !r <==> (response.response is None || response.response == Some(2i32))
            && response.message is None && response.error is None,
{
}

/// Signed numbers are written with their sign, and optional ones as such.
pub proof fn signed_numbers_are_written(
    n: i32,
    signed: String,
    optional: String,
    missing: String,
)
    requires
        call_ensures(crate::text::signed_decimal_string, (n,), signed),
        call_ensures(crate::text::option_text_string, (Some(n),), optional),
        call_ensures(crate::text::option_text_string, (None::<i32>,), missing),
    ensures
        n >= 0 ==> crate::text::number(signed@) == n,
        n < 0 ==> signed@.len() > 0 && signed@[0] == '-' && crate::text::number(
            signed@.drop_first(),
        ) == -n,
        optional@ == "Some("@ + signed@ + ")"@,
        missing@ == "None"@,
{
    crate::text::signs_are_written(n as int);
    if n >= 0 {
        crate::text::numerals_read_back(n as nat);
    } else {
        crate::text::numerals_read_back((-n) as nat);
    }
}

/// The consumer of a topic can be changed where it is held, and no other is.
pub proof fn held_consumers_can_be_changed<T: DeserializeMessage, Io>(
    empty: ConsumerSet<T, Io>,
)
    requires
        call_ensures(ConsumerSet::<T, Io>::new, (), empty),
    ensures
        empty@ == Map::<Seq<char>, Consumer<T, Io>>::empty(),
        forall|s: &mut ConsumerSet<T, Io>, topic: &str, r: &mut Consumer<T, Io>|
            #[trigger] call_ensures(ConsumerSet::<T, Io>::get_mut, (s, topic), r) ==> {
                &&& *r == (*s)@[topic@]
                &&& final(r)@.topic == topic@ ==> final(s)@ == (*s)@.insert(topic@, *final(r))
            },
{
}

/// Copies look like what they were made of, and the options that are there by default ask for
/// nothing.
pub proof fn copies_look_the_same(
    options: ConsumerOptions,
    options_copy: ConsumerOptions,
    metadata: Metadata,
    metadata_copy: Metadata,
    address: BrokerAddress,
    address_copy: BrokerAddress,
    state: ConsumerState,
    state_copy: ConsumerState,
    plain: ConsumerOptions,
)
    requires
        call_ensures(ConsumerOptions::clone, (&options,), options_copy),
        call_ensures(Metadata::clone, (&metadata,), metadata_copy),
        call_ensures(BrokerAddress::clone, (&address,), address_copy),
        call_ensures(ConsumerState::clone, (&state,), state_copy),
        call_ensures(ConsumerOptions::default, (), plain),
    ensures
        options_copy@ == options@,
        metadata_copy@ == metadata@,
        address_copy.url@ == address.url@,
        address_copy.broker_url@ == address.broker_url@,
        address_copy.proxy == address.proxy,
        state_copy.connected_topics@ == state.connected_topics@,
        state_copy.last_message_received == state.last_message_received,
        state_copy.messages_received == state.messages_received,
        plain@ == crate::options::OptionsView::none(),
{
    assert(address_copy@ == address@);
}

/// A tracker that is new knows of no batch.
pub proof fn new_trackers_know_nothing(tracker: BatchTracker)
    requires
        call_ensures(BatchTracker::new, (), tracker),
    ensures
        tracker@ == crate::nack_batches::Batches::empty(),
{
}

/// A batch is parsed by `parse`, which is given the number of messages that the entry announces and
/// its content; what was found is held in order, and an error of `parse` is the error.
pub proof fn batches_are_parsed<
    P: Fn(u32, &Vec<u8>) -> Result<Vec<BatchedMessage>, ConnectionError>,
>(
    id: MessageIdData,
    payload: Payload,
    parse: &P,
    r: Result<BatchedMessageIterator, ConnectionError>,
) -> (parsed: Result<Vec<BatchedMessage>, ConnectionError>)
    requires
        call_ensures(BatchedMessageIterator::new::<P>, (id, payload, parse), r),
    ensures
        call_ensures(
            parse,
            (payload.metadata.num_messages_in_batch->0 as u32, &payload.data),
            parsed,
        ),
        parsed matches Err(e) ==> r == Err::<BatchedMessageIterator, ConnectionError>(e),
        parsed matches Ok(messages) ==> (r matches Ok(batch) && {
            &&& batch@.message_id == id
            &&& batch@.metadata == payload.metadata@
            &&& batch@.total_messages == payload.metadata.num_messages_in_batch->0 as u32
            &&& batch@.current_index == 0
            &&& batch@.messages.len() == messages@.len()
            &&& forall|i: int|
                0 <= i < messages@.len() ==> #[trigger] batch@.messages[i] == messages@[i]@
        }),
{
    let parsed = choose|parsed: Result<Vec<BatchedMessage>, ConnectionError>|
        {
            &&& #[trigger] call_ensures(
                parse,
                (payload.metadata.num_messages_in_batch->0 as u32, &payload.data),
                parsed,
            )
            &&& match parsed {
                Ok(messages) => r matches Ok(batch) && batch@ == crate::batch::BatchView::start(
                    id,
                    payload.metadata@,
                    payload.metadata.num_messages_in_batch->0 as u32,
                    crate::batch::batch_views(messages@),
                ) && batch@.wf(),
                Err(e) => r == Err::<BatchedMessageIterator, ConnectionError>(e),
            }
        };
    parsed
}

} // verus!
