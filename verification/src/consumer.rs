//! A consumer of one topic.
use std::marker::PhantomData;

use crate::batch::{BatchView, BatchedMessageIterator};
use crate::codec::{decompress, Unpacked};
use crate::error::{ConnectionError, ConsumerError, Error};
use crate::message::{
    BatchedMessage, MessageIdData, Payload, PayloadView, RawMessage, SubType,
};
use crate::nack::{NackHandler, NackMessage, NackView};
use crate::nack_batches::{Batches, MessageData};
use crate::options::{ConsumerOptions, OptionsView};
use crate::poll::Poll;
use crate::time::Duration;
use vstd::prelude::*;

verus! {

/// How messages of a type are read from their payload.
pub trait DeserializeMessage: Sized {
    type Output;

    fn deserialize_message(payload: &Payload) -> Self::Output;
}

/// A message that was delivered.
pub struct Message<T> {
    pub topic: String,
    pub payload: Payload,
    pub message_id: MessageData,
    pub _phantom: PhantomData<T>,
}

#[verifier::ext_equal]
pub struct MessageView {
    pub topic: Seq<char>,
    pub payload: PayloadView,
    pub message_id: MessageData,
}

impl<T> View for Message<T> {
    type V = MessageView;

    open spec fn view(&self) -> MessageView {
        MessageView {
            topic: self.topic@,
            payload: self.payload@,
            message_id: self.message_id,
        }
    }
}

impl<T: DeserializeMessage> Message<T> {
    /// Reads the payload as its type says.
    pub fn deserialize(&self) -> (r: T::Output)
        requires
            call_requires(T::deserialize_message, (&self.payload,)),
        ensures
            call_ensures(T::deserialize_message, (&self.payload,), r),
    {
        T::deserialize_message(&self.payload)
    }
}

impl<T> Message<T> {
    /// What the handler of negative acknowledgements is told when this message of consumer
    /// `consumer_id` is dropped: a message that was neither acknowledged nor negatively
    /// acknowledged, and so is not settled, is reported as if it were negatively acknowledged.
    pub fn dropped(&self, consumer_id: u64, settled: bool) -> (r: Option<NackMessage>)
        ensures
            r is None <==> settled,
            r matches Some(nack) ==> nack.consumer_id == consumer_id && nack.message_ids@ == seq![
                self.message_id,
            ],
    {
        if settled {
            None
        } else {
            Some(NackMessage { consumer_id, message_ids: vec![self.message_id] })
        }
    }
}

/// The command that subscribes a consumer.
#[derive(Debug)]
pub struct SubscribeRequest {
    pub topic: String,
    pub subscription: String,
    pub sub_type: SubType,
    pub consumer_id: u64,
    pub consumer_name: Option<String>,
    pub options: ConsumerOptions,
}

/// The command that permits the broker to send more messages.
#[derive(Clone, Copy, Debug, PartialEq, Eq, Structural)]
pub struct FlowRequest {
    pub consumer_id: u64,
    pub message_permits: u32,
}

/// The command that acknowledges messages.
#[derive(Debug, PartialEq, Eq)]
pub struct AckRequest {
    pub consumer_id: u64,
    pub message_ids: Vec<MessageIdData>,
    pub cumulative: bool,
}

/// `rand::random`, for a consumer id. Nothing is claimed of the number.
#[verifier::external_body]
fn random_consumer_id() -> u64 {
    rand::random()
}

/// `rand::random` answered `id`.
pub closed spec fn drawn(id: u64) -> bool {
    call_ensures(random_consumer_id, (), id)
}

/// How many messages the broker may send ahead where the user does not say.
pub const DEFAULT_BATCH_SIZE: u32 = 1000;

/// How often a consumer looks for entries to redeliver.
pub fn nack_tick_delay() -> (r: Duration)
    ensures
        r.nanos() == 500_000_000,
        r == (Duration { secs: 0, subsec_nanos: 500_000_000 }),
{
    Duration::from_millis(500)
}

/// A consumer that is about to be opened.
pub struct Opening {
    topic: String,
    consumer_id: u64,
    batch_size: u32,
    unacked_message_redelivery_delay: Option<Duration>,
    options: ConsumerOptions,
}

#[verifier::ext_equal]
pub struct OpeningView {
    pub topic: Seq<char>,
    pub consumer_id: u64,
    pub batch_size: u32,
    pub delay: Option<Duration>,
    pub options: OptionsView,
}

impl View for Opening {
    type V = OpeningView;

    closed spec fn view(&self) -> OpeningView {
        OpeningView {
            topic: self.topic@,
            consumer_id: self.consumer_id,
            batch_size: self.batch_size,
            delay: self.unacked_message_redelivery_delay,
            options: self.options@,
        }
    }
}

impl Opening {
    /// Goes on after the subscribe command was answered: the broker is permitted a first batch.
    pub fn on_subscribed(&self, reply: Result<(), ConnectionError>) -> (r: Result<
        FlowRequest,
        Error,
    >)
        ensures
            match reply {
                Ok(_) => r == Ok::<FlowRequest, Error>(
                    FlowRequest {
                        consumer_id: self@.consumer_id,
                        message_permits: self@.batch_size,
                    },
                ),
                Err(e) => r == Err::<FlowRequest, Error>(Error::Connection(e)),
            },
    {
        match reply {
            Ok(_) => Ok(
                FlowRequest { consumer_id: self.consumer_id, message_permits: self.batch_size },
            ),
            Err(e) => Err(Error::Connection(e)),
        }
    }

    /// Goes on after the first flow command was sent: with a handler of negative
    /// acknowledgements, which looks for entries to redeliver every [`nack_tick_delay`].
    pub fn on_flow_sent(&self, sent: Result<(), ConnectionError>) -> (r: Result<
        NackHandler,
        Error,
    >)
        ensures
            match sent {
                Ok(_) => r matches Ok(handler) && handler.wf() && handler@ == (NackView {
                    pending: seq![],
                    inbound_open: true,
                    delay: self@.delay,
                    batches: Batches::empty(),
                    clock: handler@.clock,
                    outgoing: seq![],
                }) && handler@.clock.started_now(),
                Err(e) => r == Err::<NackHandler, Error>(
                    Error::Consumer(ConsumerError::Connection(e)),
                ),
            },
    {
        match sent {
            Ok(_) => Ok(NackHandler::new(self.unacked_message_redelivery_delay)),
            Err(e) => Err(Error::Consumer(ConsumerError::Connection(e))),
        }
    }
}

/// A consumer of one topic. `Io` is what its owner needs to talk to the broker; the consumer
/// only carries it.
pub struct Consumer<T: DeserializeMessage, Io> {
    io: Io,
    topic: String,
    id: u64,
    batch_size: u32,
    remaining_messages: u32,
    options: ConsumerOptions,
    current_message: Option<BatchedMessageIterator>,
    data_type: PhantomData<T>,
}

#[verifier::ext_equal]
pub struct ConsumerView {
    pub topic: Seq<char>,
    pub id: u64,
    /// How many messages the broker may send ahead at most.
    pub batch_size: u32,
    /// How many messages the broker may still send.
    pub remaining_messages: u32,
    pub options: OptionsView,
    /// The batch that is being delivered.
    pub current: Option<BatchView>,
}

impl ConsumerView {
    pub open spec fn wf(self) -> bool {
        &&& self.remaining_messages <= self.batch_size
        &&& self.current is Some ==> self.current->0.wf()
    }

    /// A message as this consumer delivers it.
    pub open spec fn message(self, id: MessageIdData, payload: PayloadView) -> MessageView {
        MessageView {
            topic: self.topic,
            payload,
            message_id: MessageData { id, batch_size: payload.metadata.num_messages_in_batch },
        }
    }

    /// The next message of the current batch.
    pub open spec fn current_message(self) -> Option<MessageView> {
        match self.current {
            Some(batch) => match batch.item() {
                Some((id, payload)) => Some(self.message(id, payload)),
                None => None,
            },
            None => None,
        }
    }

    /// The consumer after it looked for the next message of the current batch.
    pub open spec fn after_current(self) -> ConsumerView {
        ConsumerView {
            current: match self.current {
                Some(batch) => if batch.item() is Some {
                    Some(batch.rest())
                } else {
                    None
                },
                None => None,
            },
            ..self
        }
    }

    /// The broker has sent more than half of what it may send ahead.
    pub open spec fn wants_flow(self) -> bool {
        self.remaining_messages < self.batch_size / 2
    }

    /// The command that permits the broker to send a full batch ahead again.
    pub open spec fn flow(self) -> FlowRequest {
        FlowRequest {
            consumer_id: self.id,
            message_permits: (self.batch_size - self.remaining_messages) as u32,
        }
    }

    /// The consumer after that command was sent.
    pub open spec fn refilled(self) -> ConsumerView {
        ConsumerView { remaining_messages: self.batch_size, ..self }
    }

    /// The consumer after a message was received.
    pub open spec fn drained(self) -> ConsumerView {
        ConsumerView { remaining_messages: (self.remaining_messages - 1) as u32, ..self }
    }

    /// The consumer after it began to deliver `batch`.
    pub open spec fn started(self, batch: BatchView) -> ConsumerView {
        ConsumerView { current: Some(batch), ..self }
    }
}

impl<T: DeserializeMessage, Io> View for Consumer<T, Io> {
    type V = ConsumerView;

    closed spec fn view(&self) -> ConsumerView {
        ConsumerView {
            topic: self.topic@,
            id: self.id,
            batch_size: self.batch_size,
            remaining_messages: self.remaining_messages,
            options: self.options@,
            current: match self.current_message {
                Some(batch) => Some(batch@),
                None => None,
            },
        }
    }
}

/// What an attempt to get the next message brings. `Ready(None)` is the end of the messages.
pub type Polled<T> = Poll<Option<Result<Message<T>, Error>>>;

/// What happened to the consumer while it looks for the next message.
pub enum PollEvent {
    /// It is polled.
    Woken,
    /// The state of the connection: whether it is valid, and its error.
    Connection { valid: bool, error: Option<ConnectionError> },
    /// An attempt to send a flow command.
    FlowSent(Result<(), ConnectionError>),
    /// An attempt to receive a frame; `Ready(None)` says that none will come.
    Received(Poll<Option<RawMessage>>),
}

/// What the consumer wants done.
pub enum PollAction<T> {
    /// Look at the state of the connection.
    CheckConnection,
    /// Send this flow command.
    SendFlow(FlowRequest),
    /// Try to receive a frame.
    Receive,
    /// Return this from the poll.
    Return(Polled<T>),
}

/// What is delivered is the message `message`.
pub open spec fn is_message<T>(polled: Polled<T>, message: MessageView) -> bool {
    polled matches Poll::Ready(Some(Ok(m))) && m@ == message
}

/// What is delivered is an error.
pub open spec fn is_error<T>(polled: Polled<T>, error: Error) -> bool {
    polled == Poll::Ready(Some(Err::<Message<T>, Error>(error)))
}

/// The text of the error for a frame without a message or a payload.
pub open spec fn missing_payload_text() -> Seq<char> {
    "Missing payload for message Some(None)"@
}

/// What is delivered once a batch has begun: its first message, or nothing yet if it is empty.
pub open spec fn first_of_batch<T>(
    before: ConsumerView,
    batch: BatchView,
    after: ConsumerView,
    polled: Polled<T>,
) -> bool {
    &&& after == before.started(batch).after_current()
    &&& match before.started(batch).current_message() {
        Some(message) => is_message(polled, message),
        None => polled == Poll::<Option<Result<Message<T>, Error>>>::Pending,
    }
}

/// What is delivered of an entry that was taken apart.
pub open spec fn parsed_step<T>(
    before: ConsumerView,
    message_id: MessageIdData,
    payload: PayloadView,
    parsed: Result<Vec<BatchedMessage>, ConnectionError>,
    after: ConsumerView,
    polled: Polled<T>,
) -> bool {
    match parsed {
        Ok(messages) => first_of_batch(
            before,
            BatchView::start(
                message_id,
                payload.metadata,
                payload.metadata.num_messages_in_batch->0 as u32,
                crate::batch::batch_views(messages@),
            ),
            after,
            polled,
        ),
        Err(e) => after == before && is_error(polled, Error::Connection(e)),
    }
}

/// What is delivered of an entry whose content is not compressed (any more). A batch is taken
/// apart by `parse`.
pub open spec fn plain_step<T, P: Fn(u32, &Vec<u8>) -> Result<Vec<BatchedMessage>, ConnectionError>>(
    before: ConsumerView,
    message_id: MessageIdData,
    payload: PayloadView,
    parse: &P,
    after: ConsumerView,
    polled: Polled<T>,
) -> bool {
    match payload.metadata.num_messages_in_batch {
        Some(count) => exists|
            data: Vec<u8>,
            parsed: Result<Vec<BatchedMessage>, ConnectionError>,
        |
            {
                &&& data@ == payload.data
                &&& #[trigger] call_ensures(parse, (count as u32, &data), parsed)
                &&& parsed_step(before, message_id, payload, parsed, after, polled)
            },
        None => after == before && is_message(polled, before.message(message_id, payload)),
    }
}

/// What is delivered of an entry.
pub open spec fn entry_step<T, P: Fn(u32, &Vec<u8>) -> Result<Vec<BatchedMessage>, ConnectionError>>(
    before: ConsumerView,
    message_id: MessageIdData,
    payload: PayloadView,
    parse: &P,
    after: ConsumerView,
    polled: Polled<T>,
) -> bool {
    match crate::codec::unpacked(payload) {
        Unpacked::Plain(plain) => plain_step(before, message_id, plain, parse, after, polled),
        Unpacked::Corrupt => after == before && (polled matches Poll::Ready(
            Some(Err(Error::Consumer(ConsumerError::Io(e)))),
        ) && crate::codec::failed_with(payload.metadata.compression->0, payload.data, e)),
        Unpacked::Unknown => after == before && polled == Poll::Ready(
            None::<Result<Message<T>, Error>>,
        ),
    }
}

/// What is delivered of a frame.
pub open spec fn frame_step<T, P: Fn(u32, &Vec<u8>) -> Result<Vec<BatchedMessage>, ConnectionError>>(
    before: ConsumerView,
    frame: RawMessage,
    parse: &P,
    after: ConsumerView,
    polled: Polled<T>,
) -> bool {
    match (frame.command.message, frame.payload) {
        (Some(command), Some(payload)) => entry_step(
            before.drained(),
            command.message_id,
            payload@,
            parse,
            after,
            polled,
        ),
        _ => after == before.drained() && (polled matches Poll::Ready(
            Some(Err(Error::Consumer(ConsumerError::MissingPayload(text)))),
        ) && text@ == missing_payload_text()),
    }
}

/// What one step of a consumer does to it, and what it asks for.
pub open spec fn poll_step<T, P: Fn(u32, &Vec<u8>) -> Result<Vec<BatchedMessage>, ConnectionError>>(
    before: ConsumerView,
    event: PollEvent,
    parse: &P,
    after: ConsumerView,
    action: PollAction<T>,
) -> bool {
    match event {
        PollEvent::Woken => after == before.after_current() && match before.current_message() {
            Some(message) => action matches PollAction::Return(polled) && is_message(
                polled,
                message,
            ),
            None => action == PollAction::<T>::CheckConnection,
        },
        PollEvent::Connection { valid: false, error: Some(e) } => after == before && (
        action matches PollAction::Return(polled) && is_error(
            polled,
            Error::Consumer(ConsumerError::Connection(e)),
        )),
        PollEvent::Connection { .. } => after == before && action == (if before.wants_flow() {
            PollAction::<T>::SendFlow(before.flow())
        } else {
            PollAction::<T>::Receive
        }),
        PollEvent::FlowSent(Ok(_)) => after == before.refilled() && action == PollAction::<
            T,
        >::Receive,
        PollEvent::FlowSent(Err(e)) => after == before && (action matches PollAction::Return(polled)
            && is_error(polled, Error::Connection(e))),
        PollEvent::Received(Poll::Pending) => after == before && action == PollAction::Return(
            Poll::<Option<Result<Message<T>, Error>>>::Pending,
        ),
        PollEvent::Received(Poll::Ready(None)) => after == before && (
        action matches PollAction::Return(polled) && is_error(
            polled,
            Error::Connection(ConnectionError::Disconnected),
        )),
        PollEvent::Received(Poll::Ready(Some(frame))) => action matches PollAction::Return(polled)
            && frame_step(before, frame, parse, after, polled),
    }
}

impl<T: DeserializeMessage, Io> Consumer<T, Io> {
    /// What the consumer carries for its owner.
    pub closed spec fn carried(&self) -> Io {
        self.io
    }

    /// Begins to open a consumer under a given id.
    pub fn open(
        topic: String,
        subscription: String,
        sub_type: SubType,
        consumer_id: u64,
        consumer_name: Option<String>,
        batch_size: Option<u32>,
        unacked_message_redelivery_delay: Option<Duration>,
        options: ConsumerOptions,
    ) -> (r: (Opening, SubscribeRequest))
        ensures
            r.0@ == (OpeningView {
                topic: topic@,
                consumer_id,
                batch_size: match batch_size {
                    Some(size) => size,
                    None => DEFAULT_BATCH_SIZE,
                },
                delay: unacked_message_redelivery_delay,
                options: options@,
            }),
            r.1.topic@ == topic@,
            r.1.subscription == subscription,
            r.1.sub_type == sub_type,
            r.1.consumer_id == consumer_id,
            r.1.consumer_name == consumer_name,
            r.1.options@ == options@,
    {
        let request = SubscribeRequest {
            topic: topic.clone(),
            subscription,
            sub_type,
            consumer_id,
            consumer_name,
            options: options.clone(),
        };
        let opening = Opening {
            topic,
            consumer_id,
            batch_size: batch_size.unwrap_or(DEFAULT_BATCH_SIZE),
            unacked_message_redelivery_delay,
            options,
        };
        (opening, request)
    }

    /// Begins to open a consumer: the answer holds the subscribe command to send. A consumer
    /// without an id gets one at random.
    pub fn from_connection(
        topic: String,
        subscription: String,
        sub_type: SubType,
        consumer_id: Option<u64>,
        consumer_name: Option<String>,
        batch_size: Option<u32>,
        unacked_message_redelivery_delay: Option<Duration>,
        options: ConsumerOptions,
    ) -> (r: (Opening, SubscribeRequest))
        ensures
            r.0@ == (OpeningView {
                topic: topic@,
                consumer_id: r.1.consumer_id,
                batch_size: match batch_size {
                    Some(size) => size,
                    None => DEFAULT_BATCH_SIZE,
                },
                delay: unacked_message_redelivery_delay,
                options: options@,
            }),
            r.1.topic@ == topic@,
            r.1.subscription == subscription,
            r.1.sub_type == sub_type,
            match consumer_id {
                Some(id) => r.1.consumer_id == id,
                None => drawn(r.1.consumer_id),
            },
            r.1.consumer_name == consumer_name,
            r.1.options@ == options@,
    {
        let consumer_id: u64 = match consumer_id {
            Some(id) => id,
            None => random_consumer_id(),
        };
        Self::open(
            topic,
            subscription,
            sub_type,
            consumer_id,
            consumer_name,
            batch_size,
            unacked_message_redelivery_delay,
            options,
        )
    }

    /// The consumer that was opened.
    pub fn opened(opening: Opening, io: Io) -> (r: Self)
        ensures
            r.carried() == io,
            r@.wf(),
            r@ == (ConsumerView {
                topic: opening@.topic,
                id: opening@.consumer_id,
                batch_size: opening@.batch_size,
                remaining_messages: opening@.batch_size,
                options: opening@.options,
                current: None,
            }),
    {
        Consumer {
            io,
            topic: opening.topic,
            id: opening.consumer_id,
            batch_size: opening.batch_size,
            remaining_messages: opening.batch_size,
            options: opening.options,
            current_message: None,
            data_type: PhantomData,
        }
    }

    /// What the consumer carries for its owner.
    pub fn io(&self) -> (r: &Io)
        ensures
            *r == self.carried(),
    {
        &self.io
    }

    /// What the consumer carries for its owner, to be changed.
    pub fn io_mut(&mut self) -> (r: &mut Io)
        ensures
            *r == old(self).carried(),
            final(self).carried() == *final(r),
            final(self)@ == old(self)@,
    {
        &mut self.io
    }

    /// The id under which the consumer is known to the broker.
    pub fn id(&self) -> (r: u64)
        ensures
            r == self@.id,
    {
        self.id
    }

    pub fn topic(&self) -> (r: &str)
        ensures
            r@ == self@.topic,
    {
        self.topic.as_str()
    }

    /// How many messages the broker may still send.
    pub fn remaining_messages(&self) -> (r: u32)
        ensures
            r == self@.remaining_messages,
    {
        self.remaining_messages
    }

    pub fn options(&self) -> (r: &ConsumerOptions)
        ensures
            r@ == self@.options,
    {
        &self.options
    }

    /// The command that acknowledges one message.
    pub fn ack(&self, msg: &Message<T>) -> (r: AckRequest)
        ensures
            r.consumer_id == self@.id,
            r.message_ids@ == seq![msg.message_id.id],
            !r.cumulative,
    {
        AckRequest {
            consumer_id: self.id,
            message_ids: vec![msg.message_id.id],
            cumulative: false,
        }
    }

    /// The command that acknowledges a message and all before it.
    pub fn cumulative_ack(&self, msg: &Message<T>) -> (r: AckRequest)
        ensures
            r.consumer_id == self@.id,
            r.message_ids@ == seq![msg.message_id.id],
            r.cumulative,
    {
        AckRequest {
            consumer_id: self.id,
            message_ids: vec![msg.message_id.id],
            cumulative: true,
        }
    }

    /// What the handler of negative acknowledgements is told of a message.
    pub fn nack(&self, msg: &Message<T>) -> (r: NackMessage)
        ensures
            r.consumer_id == self@.id,
            r.message_ids@ == seq![msg.message_id],
    {
        NackMessage { consumer_id: self.id, message_ids: vec![msg.message_id] }
    }

    /// What the handler of negative acknowledgements is told when a message is dropped, given
    /// whether it was acknowledged or negatively acknowledged before.
    pub fn dropped(&self, msg: &Message<T>, settled: bool) -> (r: Option<NackMessage>)
        ensures
            r is None <==> settled,
            r matches Some(nack) ==> nack.consumer_id == self@.id && nack.message_ids@ == seq![
                msg.message_id,
            ],
    {
        msg.dropped(self.id, settled)
    }

    /// Makes a message of this topic.
    pub fn create_message(&self, message_id: MessageIdData, payload: Payload) -> (r: Message<T>)
        ensures
            r@ == self@.message(message_id, payload@),
    {
        Message {
            topic: self.topic.clone(),
            message_id: MessageData {
                id: message_id,
                batch_size: payload.metadata.num_messages_in_batch,
            },
            payload,
            _phantom: PhantomData,
        }
    }

    /// Delivers the next message of the current batch, if there is one.
    pub fn poll_current_message(&mut self) -> (r: Poll<Message<T>>)
        requires
            old(self)@.wf(),
        ensures
            final(self)@.wf(),
            final(self)@ == old(self)@.after_current(),
            final(self).carried() == old(self).carried(),
            match r {
                Poll::Ready(message) => old(self)@.current_message() == Some(message@),
                Poll::Pending => old(self)@.current_message() is None,
            },
    {
        match self.current_message.take() {
            Some(mut batch) => match batch.next() {
                Some((id, payload)) => {
                    self.current_message = Some(batch);
                    let message = self.create_message(id, payload);
                    Poll::Ready(message)
                },
                None => Poll::Pending,
            },
            None => Poll::Pending,
        }
    }

    /// Begins to deliver a batch, or reports why it could not be taken apart.
    pub fn deliver_batch(&mut self, batch: Result<BatchedMessageIterator, ConnectionError>) -> (r:
        Polled<T>)
        requires
            old(self)@.wf(),
            batch is Ok ==> batch->Ok_0@.wf(),
        ensures
            final(self)@.wf(),
            final(self).carried() == old(self).carried(),
            match batch {
                Ok(batch) => first_of_batch(old(self)@, batch@, final(self)@, r),
                Err(e) => final(self)@ == old(self)@ && is_error(r, Error::Connection(e)),
            },
    {
        match batch {
            Ok(batch) => {
                self.current_message = Some(batch);
                match self.poll_current_message() {
                    Poll::Ready(message) => Poll::Ready(Some(Ok(message))),
                    Poll::Pending => Poll::Pending,
                }
            },
            Err(e) => Poll::Ready(Some(Err(Error::from(e)))),
        }
    }

    /// Delivers an entry whose content is not compressed (any more). A batch is taken apart by
    /// `parse`.
    pub fn deliver_plain<P: Fn(u32, &Vec<u8>) -> Result<Vec<BatchedMessage>, ConnectionError>>(
        &mut self,
        message_id: MessageIdData,
        payload: Payload,
        parse: &P,
    ) -> (r: Polled<T>)
        requires
            old(self)@.wf(),
            forall|count: u32, data: &Vec<u8>| #[trigger] call_requires(parse, (count, data)),
        ensures
            final(self)@.wf(),
            final(self).carried() == old(self).carried(),
            plain_step(old(self)@, message_id, payload@, parse, final(self)@, r),
    {
        match payload.metadata.num_messages_in_batch {
            Some(_) => {
                let batch = BatchedMessageIterator::new(message_id, payload, parse);
                self.deliver_batch(batch)
            },
            None => Poll::Ready(Some(Ok(self.create_message(message_id, payload)))),
        }
    }

    /// Delivers an entry.
    pub fn deliver<P: Fn(u32, &Vec<u8>) -> Result<Vec<BatchedMessage>, ConnectionError>>(
        &mut self,
        message_id: MessageIdData,
        payload: Payload,
        parse: &P,
    ) -> (r: Polled<T>)
        requires
            old(self)@.wf(),
            forall|count: u32, data: &Vec<u8>| #[trigger] call_requires(parse, (count, data)),
        ensures
            final(self)@.wf(),
            final(self).carried() == old(self).carried(),
            entry_step(old(self)@, message_id, payload@, parse, final(self)@, r),
    {
        match decompress(payload) {
            Ok(Some(payload)) => self.deliver_plain(message_id, payload, parse),
            Ok(None) => Poll::Ready(None),
            Err(e) => Poll::Ready(Some(Err(Error::from(e)))),
        }
    }

    /// One step towards the next message: takes note of what happened and says what to do next.
    /// The answer `Return` ends the poll; any other is followed by the next step. `parse` takes
    /// the content of a batch apart, given the number of messages that it is to hold.
    pub fn poll_next<P: Fn(u32, &Vec<u8>) -> Result<Vec<BatchedMessage>, ConnectionError>>(
        &mut self,
        event: PollEvent,
        parse: &P,
    ) -> (action: PollAction<T>)
        requires
            old(self)@.wf(),
            event matches PollEvent::Received(Poll::Ready(Some(_))) ==> old(
                self,
            )@.remaining_messages > 0,
            forall|count: u32, data: &Vec<u8>| #[trigger] call_requires(parse, (count, data)),
        ensures
            final(self)@.wf(),
            final(self).carried() == old(self).carried(),
            poll_step(old(self)@, event, parse, final(self)@, action),
    {
        match event {
            PollEvent::Woken => match self.poll_current_message() {
                Poll::Ready(message) => PollAction::Return(Poll::Ready(Some(Ok(message)))),
                Poll::Pending => PollAction::CheckConnection,
            },
            PollEvent::Connection { valid, error } => {
                if !valid {
                    match error {
                        Some(e) => {
                            return PollAction::Return(
                                Poll::Ready(
                                    Some(Err(Error::Consumer(ConsumerError::Connection(e)))),
                                ),
                            );
                        },
                        None => {},
                    }
                }
                if self.remaining_messages < self.batch_size / 2 {
                    PollAction::SendFlow(
                        FlowRequest {
                            consumer_id: self.id,
                            message_permits: self.batch_size - self.remaining_messages,
                        },
                    )
                } else {
                    PollAction::Receive
                }
            },
            PollEvent::FlowSent(sent) => match sent {
                Ok(_) => {
                    self.remaining_messages = self.batch_size;
                    PollAction::Receive
                },
                Err(e) => PollAction::Return(Poll::Ready(Some(Err(Error::from(e))))),
            },
            PollEvent::Received(Poll::Pending) => PollAction::Return(Poll::Pending),
            PollEvent::Received(Poll::Ready(None)) => PollAction::Return(
                Poll::Ready(Some(Err(Error::Connection(ConnectionError::Disconnected)))),
            ),
            PollEvent::Received(Poll::Ready(Some(frame))) => {
                self.remaining_messages = self.remaining_messages - 1;
                match (frame.command.message, frame.payload) {
                    (Some(command), Some(payload)) => PollAction::Return(
                        self.deliver(command.message_id, payload, parse),
                    ),
                    _ => PollAction::Return(
                        Poll::Ready(
                            Some(
                                Err(
                                    Error::Consumer(
                                        ConsumerError::MissingPayload(
                                            "Missing payload for message Some(None)".to_owned(),
                                        ),
                                    ),
                                ),
                            ),
                        ),
                    ),
                }
            },
        }
    }
}

/// How many messages an event permits the broker to send, and how many it uses up.
pub open spec fn permits_granted(before: ConsumerView, event: PollEvent) -> int {
    match event {
        PollEvent::FlowSent(Ok(_)) => before.flow().message_permits as int,
        PollEvent::Received(Poll::Ready(Some(_))) => -1,
        _ => 0,
    }
}

/// The count of messages that the broker may still send is kept exactly: it grows by what a flow
/// command permits and falls by one with each frame. It never exceeds the batch size, and nothing
/// else about the consumer changes but the batch that is being delivered.
pub proof fn permits_are_conserved<
    T,
    P: Fn(u32, &Vec<u8>) -> Result<Vec<BatchedMessage>, ConnectionError>,
>(before: ConsumerView, event: PollEvent, parse: &P, after: ConsumerView, action: PollAction<T>)
    requires
        before.wf(),
        event matches PollEvent::Received(Poll::Ready(Some(_))) ==> before.remaining_messages > 0,
        poll_step(before, event, parse, after, action),
    ensures
        after.remaining_messages == before.remaining_messages + permits_granted(before, event),
        after.wf(),
        after == (ConsumerView {
            remaining_messages: after.remaining_messages,
            current: after.current,
            ..before
        }),
{
}

/// A consumer that lets the broker send at least two messages ahead asks for a frame only while
/// the broker may send one: it never runs out of permits.
pub proof fn receives_only_with_permits<
    T,
    P: Fn(u32, &Vec<u8>) -> Result<Vec<BatchedMessage>, ConnectionError>,
>(before: ConsumerView, event: PollEvent, parse: &P, after: ConsumerView, action: PollAction<T>)
    requires
        before.wf(),
        before.batch_size >= 2,
        poll_step(before, event, parse, after, action),
        action == PollAction::<T>::Receive,
    ensures
        after.remaining_messages >= 1,
        2 * after.remaining_messages >= after.batch_size - 1,
{
}

/// Every message that a consumer delivers is one of its topic.
pub proof fn messages_are_of_the_topic<
    T,
    P: Fn(u32, &Vec<u8>) -> Result<Vec<BatchedMessage>, ConnectionError>,
>(
    before: ConsumerView,
    event: PollEvent,
    parse: &P,
    after: ConsumerView,
    message: Message<T>,
)
    requires
        poll_step(
            before,
            event,
            parse,
            after,
            PollAction::Return(Poll::Ready(Some(Ok::<Message<T>, Error>(message)))),
        ),
    ensures
        message.topic@ == before.topic,
{
    assert(message.topic@ == message@.topic);
}

/// The batch that is being delivered is as large as its metadata says.
pub open spec fn batch_is_announced(consumer: ConsumerView) -> bool {
    consumer.current matches Some(batch) ==> {
        &&& batch.wf()
        &&& batch.metadata.num_messages_in_batch is Some
        &&& batch.total_messages == batch.metadata.num_messages_in_batch->0 as u32
    }
}

/// Every message that a consumer delivers lies within its batch, so that it can be negatively
/// acknowledged: by a handler that does not track its batch, or tracks it at the size that the
/// message was delivered with.
pub proof fn delivered_messages_can_be_nacked<
    T,
    P: Fn(u32, &Vec<u8>) -> Result<Vec<BatchedMessage>, ConnectionError>,
>(
    before: ConsumerView,
    event: PollEvent,
    parse: &P,
    after: ConsumerView,
    message: Message<T>,
    batches: Batches,
)
    requires
        batch_is_announced(before),
        poll_step(
            before,
            event,
            parse,
            after,
            PollAction::Return(Poll::Ready(Some(Ok::<Message<T>, Error>(message)))),
        ),
        batches.contains_key(message.message_id.id.entry()) && message.message_id.batch_size is Some
            ==> batches[message.message_id.id.entry()].seen.len()
            == message.message_id.batch_size->0,
    ensures
        crate::nack_batches::in_bounds(batches, message.message_id),
{
    if let PollEvent::Received(Poll::Ready(Some(frame))) = event {
        let payload = frame.payload->0@;
        match crate::codec::unpacked(payload) {
            Unpacked::Plain(plain) => {
                if plain.metadata.num_messages_in_batch is Some {
                    let count = plain.metadata.num_messages_in_batch->0;
                    let id = frame.command.message->0.message_id;
                    let polled = Poll::Ready(Some(Ok::<Message<T>, Error>(message)));
                    let (data, parsed) = choose|
                        data: Vec<u8>,
                        parsed: Result<Vec<BatchedMessage>, ConnectionError>,
                    |
                        {
                            &&& data@ == plain.data
                            &&& #[trigger] call_ensures(parse, (count as u32, &data), parsed)
                            &&& parsed_step(before.drained(), id, plain, parsed, after, polled)
                        };
                    assert(parsed is Ok);
                }
            },
            _ => {},
        }
    }
}

/// No step lets a batch be delivered that is not as large as its metadata says.
pub proof fn step_keeps_batch_announced<
    T,
    P: Fn(u32, &Vec<u8>) -> Result<Vec<BatchedMessage>, ConnectionError>,
>(before: ConsumerView, event: PollEvent, parse: &P, after: ConsumerView, action: PollAction<T>)
    requires
        batch_is_announced(before),
        poll_step(before, event, parse, after, action),
    ensures
        batch_is_announced(after),
{
}

/// A consumer that was woken `n` times.
pub open spec fn woken(consumer: ConsumerView, n: nat) -> ConsumerView
    decreases n,
{
    if n == 0 {
        consumer
    } else {
        woken(consumer, (n - 1) as nat).after_current()
    }
}

/// Once a batch has begun, each time the consumer is woken it delivers the next message of the
/// batch, in order and under its own index, with the metadata of the entry and its own; when all
/// are delivered the batch is dropped.
pub proof fn consumer_delivers_whole_batch(consumer: ConsumerView, n: nat)
    requires
        consumer.current is Some,
        consumer.current->0.current_index == 0,
    ensures
        ({
            let batch = consumer.current->0;
            let later = woken(consumer, n);
            &&& n < batch.size() ==> later.current_message() == Some(
                consumer.message(
                    batch.message_id.at(n as u32),
                    crate::batch::merged(batch.metadata, batch.messages[n as int]),
                ),
            )
            &&& n >= batch.size() ==> later.current_message() is None
            &&& n > batch.size() ==> later.current is None
            &&& later == (ConsumerView { current: later.current, ..consumer })
        }),
    decreases n,
{
    let batch = consumer.current->0;
    lemma_woken(consumer, n);
    crate::batch::batch_delivers_in_order(batch, n);
}

proof fn lemma_woken(consumer: ConsumerView, n: nat)
    requires
        consumer.current is Some,
        consumer.current->0.current_index == 0,
    ensures
        woken(consumer, n) == (ConsumerView {
            current: if n <= consumer.current->0.size() {
                Some(consumer.current->0.after(n))
            } else {
                None
            },
            ..consumer
        }),
    decreases n,
{
    if n > 0 {
        lemma_woken(consumer, (n - 1) as nat);
        crate::batch::batch_delivers_in_order(consumer.current->0, (n - 1) as nat);
    }
}

} // verus!
