//! A consumer of one topic, and its builder.
use pulsar::builder::ConsumerBuilder;
use pulsar::consumer::{
    nack_tick_delay, AckRequest, Consumer, DeserializeMessage, FlowRequest, Message, PollAction,
    PollEvent, DEFAULT_BATCH_SIZE,
};
use pulsar::error::{ConnectionError, ConsumerError, Error};
use pulsar::message::{
    BaseCommand, BatchedMessage, CommandMessage, KeyValue, MessageIdData, Metadata, Payload,
    RawMessage, Schema, SingleMessageMetadata, SubType,
};
use pulsar::nack::NackMessage;
use pulsar::nack_batches::MessageData;
use pulsar::options::ConsumerOptions;
use pulsar::poll::Poll;
use pulsar::request::ConsumerRequest;
use pulsar::time::Duration;
use rand::Rng;

/// A text and a number, written as the text, a colon and the number.
#[derive(Clone, Debug, PartialEq, Eq)]
struct TestData {
    topic: String,
    msg: u32,
}

impl TestData {
    fn to_bytes(&self) -> Vec<u8> {
        format!("{}:{}", self.topic, self.msg).into_bytes()
    }
}

impl DeserializeMessage for TestData {
    type Output = Result<TestData, String>;

    fn deserialize_message(payload: &Payload) -> Self::Output {
        let text = String::from_utf8(payload.data.clone()).map_err(|e| e.to_string())?;
        let (topic, msg) = text.split_once(':').ok_or("no colon".to_string())?;
        let msg = msg.parse().map_err(|_| "no number".to_string())?;
        Ok(TestData { topic: topic.to_string(), msg })
    }
}

fn entry(entry_id: u64) -> MessageIdData {
    MessageIdData { ledger_id: 1, entry_id, partition: None, batch_index: None }
}

fn metadata(compression: Option<i32>, count: Option<i32>) -> Metadata {
    Metadata {
        producer_name: "producer".to_string(),
        sequence_id: 1,
        publish_time: 2,
        properties: vec![],
        replicated_from: None,
        partition_key: None,
        compression,
        uncompressed_size: None,
        num_messages_in_batch: count,
        event_time: None,
    }
}

fn frame(entry_id: u64, metadata: Metadata, data: &[u8]) -> RawMessage {
    RawMessage {
        command: BaseCommand { message: Some(CommandMessage { message_id: entry(entry_id) }) },
        payload: Some(Payload { metadata, data: data.to_vec() }),
    }
}

/// Every byte is a message of its own.
fn parse(_: u32, data: &Vec<u8>) -> Result<Vec<BatchedMessage>, ConnectionError> {
    if data.contains(&0xff) {
        return Err(ConnectionError::Unexpected("bad batch".to_string()));
    }
    Ok(data
        .iter()
        .map(|byte| BatchedMessage {
            metadata: SingleMessageMetadata {
                properties: vec![KeyValue { key: "k".to_string(), value: byte.to_string() }],
                partition_key: Some("key".to_string()),
                event_time: None,
            },
            payload: vec![*byte],
        })
        .collect())
}

fn consumer(batch_size: u32) -> Consumer<TestData, &'static str> {
    let (opening, _) = Consumer::<TestData, &'static str>::open(
        "topic".to_string(),
        "sub".to_string(),
        SubType::Shared,
        77,
        None,
        Some(batch_size),
        None,
        ConsumerOptions::default(),
    );
    Consumer::opened(opening, "io")
}

fn receive(
    consumer: &mut Consumer<TestData, &'static str>,
    frame: RawMessage,
) -> Poll<Option<Result<Message<TestData>, Error>>> {
    assert!(consumer.remaining_messages() > 0);
    match consumer.poll_next(PollEvent::Received(Poll::Ready(Some(frame))), &parse) {
        PollAction::Return(polled) => polled,
        _ => panic!("a frame ends the poll"),
    }
}

fn message(polled: Poll<Option<Result<Message<TestData>, Error>>>) -> Message<TestData> {
    match polled {
        Poll::Ready(Some(Ok(message))) => message,
        _ => panic!("a message was expected"),
    }
}

fn error(polled: Poll<Option<Result<Message<TestData>, Error>>>) -> Error {
    match polled {
        Poll::Ready(Some(Err(e))) => e,
        _ => panic!("an error was expected"),
    }
}

fn woken(consumer: &mut Consumer<TestData, &'static str>) -> Message<TestData> {
    match consumer.poll_next(PollEvent::Woken, &parse) {
        PollAction::Return(polled) => message(polled),
        _ => panic!("a message was expected"),
    }
}

#[test]
fn consumer_is_opened_in_three_steps() {
    let options = ConsumerOptions { initial_position: Some(1), ..ConsumerOptions::default() };
    let (opening, request) = Consumer::<TestData, ()>::from_connection(
        "topic".to_string(),
        "sub".to_string(),
        SubType::Failover,
        Some(5),
        Some("name".to_string()),
        None,
        Some(Duration::from_secs(2)),
        options,
    );
    assert_eq!(request.topic, "topic");
    assert_eq!(request.subscription, "sub");
    assert_eq!(request.sub_type, SubType::Failover);
    assert_eq!(request.consumer_id, 5);
    assert_eq!(request.consumer_name, Some("name".to_string()));
    assert_eq!(request.options.initial_position, Some(1));
    let flow = opening.on_subscribed(Ok(())).unwrap();
    assert_eq!(flow, FlowRequest { consumer_id: 5, message_permits: 1000 });
    assert_eq!(DEFAULT_BATCH_SIZE, 1000);
    let mut handler = opening.on_flow_sent(Ok(())).ok().unwrap();
    handler.handle_nack_at(
        NackMessage {
            consumer_id: 5,
            message_ids: vec![MessageData { id: entry(1), batch_size: None }],
        },
        1,
    );
    assert_eq!(handler.next_ready_resend_at(2_000_000_001).unwrap().when, 2_000_000_001);
    let consumer: Consumer<TestData, ()> = Consumer::opened(opening, ());
    assert_eq!(consumer.topic(), "topic");
    assert_eq!(consumer.id(), 5);
    assert_eq!(consumer.remaining_messages(), 1000);
    assert_eq!(consumer.options().initial_position, Some(1));
    assert_eq!(nack_tick_delay(), Duration::from_millis(500));
}

#[test]
fn opening_stops_at_the_first_failure() {
    let (opening, _) = Consumer::<TestData, ()>::open(
        "t".to_string(),
        "s".to_string(),
        SubType::Shared,
        1,
        None,
        Some(10),
        None,
        ConsumerOptions::default(),
    );
    assert!(matches!(
        opening.on_subscribed(Err(ConnectionError::Disconnected)),
        Err(Error::Connection(ConnectionError::Disconnected))
    ));
    assert_eq!(opening.on_subscribed(Ok(())).unwrap().message_permits, 10);
    assert!(matches!(
        opening.on_flow_sent(Err(ConnectionError::Disconnected)),
        Err(Error::Consumer(ConsumerError::Connection(ConnectionError::Disconnected)))
    ));
}

#[test]
fn consumers_without_an_id_get_one_at_random() {
    let mut ids = Vec::new();
    for _ in 0..4 {
        let (opening, request) = Consumer::<TestData, ()>::from_connection(
            "t".to_string(),
            "s".to_string(),
            SubType::Shared,
            None,
            None,
            None,
            None,
            ConsumerOptions::default(),
        );
        let flow = opening.on_subscribed(Ok(())).unwrap();
        assert_eq!(flow.consumer_id, request.consumer_id);
        ids.push(request.consumer_id);
    }
    assert!(ids.iter().any(|id| *id != ids[0]));
}

#[test]
fn consumer_carries_what_it_is_given() {
    let mut consumer = consumer(10);
    assert_eq!(*consumer.io(), "io");
    *consumer.io_mut() = "other";
    assert_eq!(*consumer.io(), "other");
}

#[test]
fn plain_message_is_delivered() {
    let mut consumer = consumer(10);
    let data = TestData { topic: "a".to_string(), msg: 3 };
    let received = message(receive(&mut consumer, frame(4, metadata(None, None), &data.to_bytes())));
    assert_eq!(received.topic, "topic");
    assert_eq!(received.message_id, MessageData { id: entry(4), batch_size: None });
    assert_eq!(received.deserialize(), Ok(data));
    assert_eq!(consumer.remaining_messages(), 9);
    assert_eq!(
        consumer.ack(&received),
        AckRequest { consumer_id: 77, message_ids: vec![entry(4)], cumulative: false }
    );
    assert_eq!(
        consumer.cumulative_ack(&received),
        AckRequest { consumer_id: 77, message_ids: vec![entry(4)], cumulative: true }
    );
    assert_eq!(
        consumer.nack(&received),
        NackMessage {
            consumer_id: 77,
            message_ids: vec![MessageData { id: entry(4), batch_size: None }],
        }
    );
}

#[test]
fn dropped_message_is_resent_unless_it_was_settled() {
    let mut consumer = consumer(10);
    let received = message(receive(&mut consumer, frame(4, metadata(None, Some(2)), &[5, 6])));
    assert!(consumer.dropped(&received, true).is_none());
    assert!(received.dropped(77, true).is_none());
    let report = consumer.dropped(&received, false).unwrap();
    assert_eq!(report, consumer.nack(&received));
    assert_eq!(received.dropped(77, false), Some(consumer.nack(&received)));
    let (opening, _) = Consumer::<TestData, ()>::open(
        "topic".to_string(),
        "sub".to_string(),
        SubType::Shared,
        77,
        None,
        None,
        Some(Duration::from_secs(2)),
        ConsumerOptions::default(),
    );
    let mut handler = opening.on_flow_sent(Ok(())).ok().unwrap();
    handler.handle_nack_at(report, 1);
    assert!(handler.collect_ready_at(2_000_000_000).is_empty());
    let sent = handler.collect_ready_at(2_000_000_001);
    assert_eq!(sent.len(), 1);
    assert_eq!(sent[0].consumer_id, 77);
    assert_eq!(sent[0].message_ids, vec![entry(4)]);
}

#[test]
fn batch_is_delivered_message_by_message() {
    let mut consumer = consumer(10);
    let first = message(receive(&mut consumer, frame(4, metadata(None, Some(3)), &[5, 6, 7])));
    let second = woken(&mut consumer);
    let third = woken(&mut consumer);
    for (index, message) in [&first, &second, &third].into_iter().enumerate() {
        assert_eq!(message.payload.data, vec![5 + index as u8]);
        assert_eq!(
            message.message_id,
            MessageData {
                id: MessageIdData { batch_index: Some(index as i32), ..entry(4) },
                batch_size: Some(3),
            }
        );
        assert_eq!(message.payload.metadata.partition_key, Some("key".to_string()));
        assert_eq!(message.payload.metadata.producer_name, "producer");
    }
    assert!(matches!(
        consumer.poll_next(PollEvent::Woken, &parse),
        PollAction::CheckConnection
    ));
    // one frame uses up one permit, however many messages it holds
    assert_eq!(consumer.remaining_messages(), 9);
}

#[test]
fn empty_batch_brings_nothing_yet() {
    let mut consumer = consumer(10);
    let polled = receive(&mut consumer, frame(4, metadata(None, Some(2)), &[]));
    assert!(matches!(polled, Poll::Pending));
    let polled = receive(&mut consumer, frame(5, metadata(None, Some(0)), &[1]));
    assert!(matches!(polled, Poll::Pending));
}

#[test]
fn broken_frames_are_errors() {
    let mut consumer = consumer(10);
    let e = error(receive(&mut consumer, frame(4, metadata(None, Some(2)), &[0xff])));
    match e {
        Error::Connection(e) => {
            assert_eq!(e, ConnectionError::Unexpected("bad batch".to_string()))
        }
        _ => panic!("a connection error was expected"),
    }
    let e = error(receive(&mut consumer, frame(4, metadata(Some(3), None), &[1, 2, 3, 4, 5])));
    assert!(matches!(e, Error::Consumer(ConsumerError::Io(_))));
    let no_payload = RawMessage { payload: None, ..frame(4, metadata(None, None), &[]) };
    match error(receive(&mut consumer, no_payload)) {
        Error::Consumer(ConsumerError::MissingPayload(text)) => {
            assert_eq!(text, "Missing payload for message Some(None)")
        }
        _ => panic!("a missing payload was expected"),
    }
    let no_message = RawMessage {
        command: BaseCommand { message: None },
        ..frame(4, metadata(None, None), &[])
    };
    assert!(matches!(
        error(receive(&mut consumer, no_message)),
        Error::Consumer(ConsumerError::MissingPayload(_))
    ));
    assert_eq!(consumer.remaining_messages(), 6);
}

#[test]
fn unknown_compression_ends_the_messages() {
    let mut consumer = consumer(10);
    let polled = receive(&mut consumer, frame(4, metadata(Some(9), None), &[1]));
    assert!(matches!(polled, Poll::Ready(None)));
}

#[test]
fn compressed_batch_is_decompressed_first() {
    let mut consumer = consumer(10);
    let packed = zstd::encode_all(&[3u8, 4][..], 0).unwrap();
    let first = message(receive(&mut consumer, frame(4, metadata(Some(3), Some(2)), &packed)));
    assert_eq!(first.payload.data, vec![3]);
    assert_eq!(woken(&mut consumer).payload.data, vec![4]);
}

#[test]
fn connection_failures_are_reported() {
    let mut consumer = consumer(10);
    match consumer.poll_next(
        PollEvent::Connection { valid: false, error: Some(ConnectionError::Disconnected) },
        &parse,
    ) {
        PollAction::Return(polled) => assert!(matches!(
            error(polled),
            Error::Consumer(ConsumerError::Connection(ConnectionError::Disconnected))
        )),
        _ => panic!("an error was expected"),
    }
    assert!(matches!(
        consumer.poll_next(PollEvent::Connection { valid: false, error: None }, &parse),
        PollAction::Receive
    ));
    assert!(matches!(
        consumer.poll_next(
            PollEvent::Connection { valid: true, error: Some(ConnectionError::Disconnected) },
            &parse,
        ),
        PollAction::Receive
    ));
    assert!(matches!(
        consumer.poll_next(PollEvent::Received(Poll::Pending), &parse),
        PollAction::Return(Poll::Pending)
    ));
    match consumer.poll_next(PollEvent::Received(Poll::Ready(None)), &parse) {
        PollAction::Return(polled) => assert!(matches!(
            error(polled),
            Error::Connection(ConnectionError::Disconnected)
        )),
        _ => panic!("an error was expected"),
    }
}

#[test]
fn permits_are_renewed_below_half() {
    let mut consumer = consumer(6);
    let connected = || PollEvent::Connection { valid: true, error: None };
    for entry_id in 0..3 {
        assert!(matches!(consumer.poll_next(connected(), &parse), PollAction::Receive));
        receive(&mut consumer, frame(entry_id, metadata(None, None), b"a:1"));
    }
    assert_eq!(consumer.remaining_messages(), 3);
    assert!(matches!(consumer.poll_next(connected(), &parse), PollAction::Receive));
    receive(&mut consumer, frame(3, metadata(None, None), b"a:1"));
    match consumer.poll_next(connected(), &parse) {
        PollAction::SendFlow(flow) => {
            assert_eq!(flow, FlowRequest { consumer_id: 77, message_permits: 4 })
        }
        _ => panic!("more permits were expected"),
    }
    match consumer.poll_next(PollEvent::FlowSent(Err(ConnectionError::Disconnected)), &parse) {
        PollAction::Return(polled) => assert!(matches!(
            error(polled),
            Error::Connection(ConnectionError::Disconnected)
        )),
        _ => panic!("an error was expected"),
    }
    assert_eq!(consumer.remaining_messages(), 2);
    assert!(matches!(
        consumer.poll_next(PollEvent::FlowSent(Ok(())), &parse),
        PollAction::Receive
    ));
    assert_eq!(consumer.remaining_messages(), 6);
}

#[test]
fn options_are_cloned_in_full() {
    let mut options = ConsumerOptions {
        priority_level: Some(1),
        durable: Some(false),
        start_message_id: Some(entry(3)),
        read_compacted: Some(true),
        schema: Some(Schema {
            name: "schema".to_string(),
            schema_data: vec![1, 2],
            type_code: 4,
            properties: vec![KeyValue { key: "k".to_string(), value: "v".to_string() }],
        }),
        initial_position: Some(2),
        ..ConsumerOptions::default()
    };
    options.metadata.insert("a".to_string(), "b".to_string());
    let copy = options.clone();
    assert_eq!(copy.priority_level, Some(1));
    assert_eq!(copy.durable, Some(false));
    assert_eq!(copy.start_message_id, Some(entry(3)));
    assert_eq!(copy.metadata, options.metadata);
    assert_eq!(copy.read_compacted, Some(true));
    assert_eq!(copy.schema, options.schema);
    assert_eq!(copy.initial_position, Some(2));
    let none = ConsumerOptions::default();
    assert!(none.priority_level.is_none() && none.durable.is_none() && none.schema.is_none());
    assert!(none.metadata.is_empty() && none.start_message_id.is_none());
    assert!(none.read_compacted.is_none() && none.initial_position.is_none());
}

#[test]
fn builder_asks_for_what_it_was_given() {
    let client = "client";
    let builder = ConsumerBuilder::new(client)
        .with_consumer_id(8)
        .with_topic("topic")
        .with_consumer_name("name")
        .with_subscription_type(SubType::KeyShared)
        .with_batch_size(20)
        .with_subscription("sub".to_string())
        .with_options(ConsumerOptions { durable: Some(true), ..ConsumerOptions::default() })
        .with_unacked_message_resend_delay(Some(Duration::from_millis(3)));
    assert_eq!(builder.pulsar, "client");
    let request = builder.build();
    assert_eq!(request.topic, "topic");
    assert_eq!(request.subscription, "sub");
    assert_eq!(request.sub_type, SubType::KeyShared);
    assert_eq!(request.batch_size, Some(20));
    assert_eq!(request.consumer_name, Some("name".to_string()));
    assert_eq!(request.consumer_id, Some(8));
    assert_eq!(request.unacked_message_resend_delay, Some(Duration::from_millis(3)));
    assert_eq!(request.options.durable, Some(true));
}

#[test]
fn builder_leaves_out_what_it_was_not_given() {
    let request = ConsumerBuilder::new(&())
        .with_topic("t")
        .with_subscription("s")
        .with_subscription_type(SubType::Exclusive)
        .build();
    assert!(request.batch_size.is_none() && request.consumer_name.is_none());
    assert!(request.consumer_id.is_none() && request.unacked_message_resend_delay.is_none());
    assert!(request.options.durable.is_none() && request.options.initial_position.is_none());
}

/// A broker with one topic. It keeps the messages that were not acknowledged, and sends them from
/// the start to each new consumer.
struct Broker {
    kept: Vec<(u64, Vec<u8>)>,
}

struct Connected {
    consumer: Consumer<TestData, Vec<RawMessage>>,
}

impl Broker {
    fn connect(&self, request: ConsumerRequest) -> Connected {
        let (opening, subscribe) = Consumer::<TestData, Vec<RawMessage>>::from_connection(
            request.topic,
            request.subscription,
            request.sub_type,
            request.consumer_id,
            request.consumer_name,
            request.batch_size,
            request.unacked_message_resend_delay,
            request.options,
        );
        assert_eq!(subscribe.topic, "issue_51");
        assert_eq!(subscribe.subscription, "dropped_ack");
        assert_eq!(subscribe.options.initial_position, Some(1));
        opening.on_subscribed(Ok(())).unwrap();
        opening.on_flow_sent(Ok(())).ok().unwrap();
        let mut frames: Vec<RawMessage> = self
            .kept
            .iter()
            .map(|(entry_id, data)| frame(*entry_id, metadata(None, None), data))
            .collect();
        frames.reverse();
        Connected { consumer: Consumer::opened(opening, frames) }
    }

    fn acknowledge(&mut self, ack: AckRequest) {
        assert!(!ack.cumulative);
        self.kept.retain(|(entry_id, _)| ack.message_ids.iter().all(|id| id.entry_id != *entry_id));
    }
}

impl Connected {
    fn next(&mut self) -> Poll<Option<Result<Message<TestData>, Error>>> {
        let mut event = PollEvent::Woken;
        loop {
            event = match self.consumer.poll_next(event, &parse) {
                PollAction::CheckConnection => PollEvent::Connection { valid: true, error: None },
                PollAction::SendFlow(_) => PollEvent::FlowSent(Ok(())),
                PollAction::Receive => match self.consumer.io_mut().pop() {
                    Some(frame) => PollEvent::Received(Poll::Ready(Some(frame))),
                    None => PollEvent::Received(Poll::Pending),
                },
                PollAction::Return(polled) => return polled,
            };
        }
    }
}

fn lingering_request() -> ConsumerRequest {
    ConsumerBuilder::new(&())
        .with_topic("issue_51")
        .with_subscription("dropped_ack")
        .with_subscription_type(SubType::Shared)
        .with_options(ConsumerOptions { initial_position: Some(1), ..Default::default() })
        .build()
}

#[test]
fn consumer_dropped_with_lingering_acks() {
    let topic: String = std::iter::repeat(())
        .map(|()| rand::thread_rng().sample(rand::distributions::Alphanumeric))
        .take(8)
        .collect();
    let data = TestData { topic, msg: 1 };
    let mut broker = Broker { kept: vec![(12, data.to_bytes())] };
    {
        let mut connected = broker.connect(lingering_request());
        let msg = message(connected.next());
        assert_eq!(data, msg.deserialize().unwrap());
        broker.acknowledge(connected.consumer.ack(&msg));
    }
    {
        // the message was acknowledged, so that nothing is received
        let mut connected = broker.connect(lingering_request());
        assert!(matches!(connected.next(), Poll::Pending));
    }
}
