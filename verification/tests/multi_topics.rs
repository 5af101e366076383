//! A consumer of many topics.
use std::collections::BTreeMap;

use pulsar::builder::ConsumerBuilder;
use pulsar::consumer::{Consumer, DeserializeMessage, Message, PollAction, PollEvent};
use pulsar::consumer_set::ConsumerSet;
use pulsar::error::{ConnectionError, Error};
use pulsar::message::{
    BaseCommand, BatchedMessage, CommandMessage, MessageIdData, Metadata, Payload, RawMessage,
    SingleMessageMetadata, SubType,
};
use pulsar::multi::{ConsumerState, MultiAction, MultiEvent, MultiTopicConsumer, Reaction};
use pulsar::options::ConsumerOptions;
use pulsar::poll::Poll;
use pulsar::refresh::Refresh;
use pulsar::request::ConsumerRequest;
use pulsar::time::{Duration, Timestamp};
use regex::Regex;

/// The first byte of a payload.
#[derive(Clone, Debug, PartialEq, Eq)]
struct Byte(u8);

impl DeserializeMessage for Byte {
    type Output = Option<Byte>;

    fn deserialize_message(payload: &Payload) -> Self::Output {
        payload.data.first().map(|byte| Byte(*byte))
    }
}

/// What a topic will bring, the next thing last.
type Script = Vec<Poll<Option<RawMessage>>>;

type Multi = MultiTopicConsumer<Byte, Script, &'static str>;

fn frame(byte: u8, count: Option<i32>, data: Vec<u8>) -> Poll<Option<RawMessage>> {
    Poll::Ready(Some(RawMessage {
        command: BaseCommand {
            message: Some(CommandMessage {
                message_id: MessageIdData {
                    ledger_id: 0,
                    entry_id: byte as u64,
                    partition: None,
                    batch_index: None,
                },
            }),
        },
        payload: Some(Payload {
            metadata: Metadata {
                producer_name: "producer".to_string(),
                sequence_id: 0,
                publish_time: 0,
                properties: vec![],
                replicated_from: None,
                partition_key: None,
                compression: None,
                uncompressed_size: None,
                num_messages_in_batch: count,
                event_time: None,
            },
            data,
        }),
    }))
}

fn one(byte: u8) -> Poll<Option<RawMessage>> {
    frame(byte, None, vec![byte])
}

fn parse(_: u32, data: &Vec<u8>) -> Result<Vec<BatchedMessage>, ConnectionError> {
    Ok(data
        .iter()
        .map(|byte| BatchedMessage {
            metadata: SingleMessageMetadata {
                properties: vec![],
                partition_key: None,
                event_time: None,
            },
            payload: vec![*byte],
        })
        .collect())
}

fn open(request: ConsumerRequest, script: Script) -> Consumer<Byte, Script> {
    let (opening, _) = Consumer::<Byte, Script>::from_connection(
        request.topic,
        request.subscription,
        request.sub_type,
        request.consumer_id,
        request.consumer_name,
        request.batch_size,
        request.unacked_message_resend_delay,
        request.options,
    );
    Consumer::opened(opening, script)
}

fn consumer(topic: &str, script: Script) -> Consumer<Byte, Script> {
    let request = ConsumerBuilder::new(&())
        .with_topic(topic)
        .with_subscription("sub")
        .with_subscription_type(SubType::Shared)
        .build();
    open(request, script)
}

fn multi(pattern: &str) -> Multi {
    ConsumerBuilder::new(&())
        .multi_topic(Regex::new(pattern).unwrap())
        .with_subscription("sub")
        .with_subscription_type(SubType::Shared)
        .build()
}

fn multi_of(consumers: Vec<(&str, Script)>) -> Multi {
    let mut multi = multi("");
    multi.add_consumers(consumers.into_iter().map(|(topic, s)| consumer(topic, s)).collect());
    multi
}

/// Runs the multi-topic consumer until it returns. A tick of its refresh timer is handled by
/// creating the consumers that it asks for.
fn poll(
    multi: &mut Multi,
    ticks: &mut Vec<Poll<Option<()>>>,
    namespace: &mut BTreeMap<String, Script>,
    published: &mut Vec<ConsumerState>,
) -> Poll<Option<Result<Message<Byte>, Error>>> {
    let mut created: Option<Vec<Consumer<Byte, Script>>> = None;
    let mut event = MultiEvent::Woken;
    loop {
        let Reaction { failure: _, publish, action } = multi.poll_next(event, &parse);
        published.extend(publish);
        event = match action {
            MultiAction::PollCreation => match created.take() {
                Some(consumers) => MultiEvent::Creation(Poll::Ready(Ok(consumers))),
                None => MultiEvent::Creation(Poll::Pending),
            },
            MultiAction::PollRefresh => {
                MultiEvent::Refresh(ticks.pop().unwrap_or(Poll::Pending))
            }
            MultiAction::StartCreation(refresh) => {
                let requests = refresh.requests(namespace.keys().cloned().collect());
                created = Some(
                    requests
                        .into_iter()
                        .map(|request| {
                            let script = namespace.remove(&request.topic).unwrap();
                            open(request, script)
                        })
                        .collect(),
                );
                MultiEvent::Woken
            }
            MultiAction::Consumer(PollAction::CheckConnection) => {
                MultiEvent::Consumer(PollEvent::Connection { valid: true, error: None })
            }
            MultiAction::Consumer(PollAction::SendFlow(_)) => {
                MultiEvent::Consumer(PollEvent::FlowSent(Ok(())))
            }
            MultiAction::Consumer(PollAction::Receive) => {
                assert!(multi.polled_consumer().unwrap().remaining_messages() > 0);
                let received = multi.polled_io().pop().unwrap_or(Poll::Pending);
                MultiEvent::Consumer(PollEvent::Received(received))
            }
            MultiAction::Consumer(PollAction::Return(_)) => panic!("nothing to do"),
            MultiAction::Return(polled) => return polled,
        };
    }
}

fn next(multi: &mut Multi) -> Option<(String, u8)> {
    match poll(multi, &mut vec![], &mut BTreeMap::new(), &mut vec![]) {
        Poll::Ready(Some(Ok(message))) => {
            Some((message.topic.clone(), message.deserialize().unwrap().0))
        }
        Poll::Pending => None,
        _ => panic!("only messages come out"),
    }
}

#[test]
fn consumers_are_kept_by_topic() {
    let mut set: ConsumerSet<Byte, Script> = ConsumerSet::new();
    assert!(set.topics().is_empty());
    for topic in ["m", "b", "z", "a", "b"] {
        set.insert(consumer(topic, vec![]));
    }
    assert_eq!(set.topics(), ["a", "b", "m", "z"]);
    assert_eq!(set.get("m").unwrap().topic(), "m");
    assert!(set.get("n").is_none());
    set.get_mut("b").io_mut().push(Poll::Pending);
    assert_eq!(set.get("b").unwrap().io().len(), 1);
    assert_eq!(set.get("a").unwrap().io().len(), 0);
    set.remove("b");
    set.remove("not there");
    assert_eq!(set.topics(), ["a", "m", "z"]);
}

#[test]
fn multi_topic_builder_has_defaults() {
    let multi = multi("x");
    assert_eq!(multi.namespace(), "public/default");
    assert_eq!(multi.topic_refresh(), Duration::from_secs(30));
    let multi: Multi = ConsumerBuilder::new(&())
        .multi_topic(Regex::new("x").unwrap())
        .with_namespace("tenant/space")
        .with_topic_refresh(Duration::from_secs(5))
        .with_consumer_id(1)
        .with_subscription("sub")
        .with_subscription_type(SubType::Shared)
        .build();
    assert_eq!(multi.namespace(), "tenant/space");
    assert_eq!(multi.topic_refresh(), Duration::from_secs(5));
    assert_eq!(multi.topic_regex().as_str(), "x");
}

#[test]
fn multi_topic_consumer_takes_any_kind_of_string() {
    let multi: Multi = MultiTopicConsumer::new(
        "tenant/space".to_string(),
        Regex::new("a").unwrap(),
        "sub",
        SubType::Failover,
        Duration::from_secs(1),
        None,
        ConsumerOptions { durable: Some(true), ..ConsumerOptions::default() },
    );
    let refresh = multi.refresh();
    assert_eq!(refresh.namespace(), "tenant/space");
    let requests = refresh.requests(vec!["a".to_string()]);
    assert_eq!(requests[0].subscription, "sub");
    assert_eq!(requests[0].sub_type, SubType::Failover);
    assert_eq!(requests[0].options.durable, Some(true));
}

#[test]
fn refresh_selects_new_topics_that_match() {
    let refresh = Refresh::new(
        "n".to_string(),
        vec!["mt_test_a".to_string()],
        Regex::new("mt_test_[ab]").unwrap(),
        "sub".to_string(),
        SubType::Shared,
        Some(Duration::from_secs(9)),
        ConsumerOptions::default(),
    );
    let topics = ["other", "mt_test_b", "mt_test_a", "mt_test_c", "x/mt_test_bb", "mt_test_b"];
    let requests = refresh.requests(topics.iter().map(|t| t.to_string()).collect());
    let names: Vec<&str> = requests.iter().map(|r| r.topic.as_str()).collect();
    assert_eq!(names, ["mt_test_b", "x/mt_test_bb", "mt_test_b"]);
    assert_eq!(requests[0].unacked_message_resend_delay, Some(Duration::from_secs(9)));
    assert!(requests[0].batch_size.is_none());
    assert!(requests[0].consumer_name.is_none() && requests[0].consumer_id.is_none());
}

#[test]
fn topics_get_a_consumer_only_if_they_match_and_have_none() {
    let refresh = multi_of(vec![("a", vec![])]).refresh();
    let request = refresh.request_for("b".to_string(), true).unwrap();
    assert_eq!(request.topic, "b");
    assert_eq!(request.subscription, "sub");
    assert!(refresh.request_for("b".to_string(), false).is_none());
    assert!(refresh.request_for("a".to_string(), true).is_none());
}

#[test]
fn refresh_leaves_connected_topics_out() {
    let multi = multi_of(vec![("a1", vec![]), ("a2", vec![])]);
    let requests = multi.refresh().requests(vec!["a2".to_string(), "a3".to_string()]);
    assert_eq!(requests.len(), 1);
    assert_eq!(requests[0].topic, "a3");
}

#[test]
fn topics_take_turns() {
    let mut multi = multi_of(vec![
        ("a", vec![one(3), one(2), one(1)]),
        ("b", vec![one(12), one(11)]),
        ("c", vec![]),
    ]);
    let mut received = vec![];
    while let Some((topic, byte)) = next(&mut multi) {
        received.push((topic, byte));
    }
    let expected = [("a", 1), ("b", 11), ("a", 2), ("b", 12), ("a", 3)];
    let expected: Vec<(String, u8)> =
        expected.iter().map(|(topic, byte)| (topic.to_string(), *byte)).collect();
    assert_eq!(received, expected);
}

#[test]
fn batches_of_topics_are_interleaved() {
    let mut multi = multi_of(vec![
        ("a", vec![frame(1, Some(2), vec![1, 2])]),
        ("b", vec![one(11)]),
    ]);
    assert_eq!(next(&mut multi), Some(("a".to_string(), 1)));
    assert_eq!(next(&mut multi), Some(("b".to_string(), 11)));
    assert_eq!(next(&mut multi), Some(("a".to_string(), 2)));
    assert_eq!(next(&mut multi), None);
}

#[test]
fn failing_topics_are_dropped() {
    let mut multi = multi_of(vec![
        ("ended", vec![Poll::Ready(None)]),
        ("fine", vec![one(1)]),
        ("unknown", vec![]),
    ]);
    multi.start_state_stream("stream");
    let mut published = vec![];
    let polled = poll(&mut multi, &mut vec![], &mut BTreeMap::new(), &mut published);
    assert!(matches!(polled, Poll::Ready(Some(Ok(_)))));
    assert!(multi.consumer("ended").is_none());
    assert!(multi.consumer("fine").is_some());
    assert_eq!(published.len(), 2);
    assert_eq!(published[0].connected_topics, ["fine", "unknown"]);
    assert_eq!(published[0].messages_received, 0);
    assert!(published[0].last_message_received.is_none());
    assert_eq!(published[1].messages_received, 1);
    assert!(published[1].last_message_received.is_some());
}

#[test]
fn failures_are_told_with_their_topic() {
    let mut multi = multi_of(vec![("lost", vec![]), ("odd", vec![])]);
    let check = || MultiEvent::Consumer(PollEvent::Connection { valid: true, error: None });
    multi.poll_next(MultiEvent::Refresh(Poll::Pending), &parse);
    multi.poll_next(check(), &parse);
    let gone = MultiEvent::Consumer(PollEvent::Received(Poll::Ready(None)));
    let failure = multi.poll_next(gone, &parse).failure.unwrap();
    assert_eq!(failure.topic, "lost");
    assert!(matches!(failure.error, Some(Error::Connection(ConnectionError::Disconnected))));
    assert!(multi.poll_next(check(), &parse).failure.is_none());
    let mut unknown = one(1);
    if let Poll::Ready(Some(frame)) = &mut unknown {
        frame.payload.as_mut().unwrap().metadata.compression = Some(9);
    }
    let ended = MultiEvent::Consumer(PollEvent::Received(unknown));
    let reaction = multi.poll_next(ended, &parse);
    let failure = reaction.failure.unwrap();
    assert_eq!(failure.topic, "odd");
    assert!(failure.error.is_none());
    assert!(matches!(reaction.action, MultiAction::Return(Poll::Pending)));
    assert!(multi.consumer("lost").is_none() && multi.consumer("odd").is_none());
}

#[test]
fn fruitless_round_keeps_the_order() {
    let mut multi = multi_of(vec![
        ("a", vec![one(1)]),
        ("b", vec![Poll::Ready(None)]),
        ("c", vec![one(3), Poll::Pending]),
        ("d", vec![one(4), Poll::Pending]),
    ]);
    assert!(multi.polled_consumer().is_none());
    assert_eq!(next(&mut multi), Some(("a".to_string(), 1)));
    assert!(multi.consumer("b").is_some());
    assert_eq!(next(&mut multi), None);
    assert!(multi.consumer("b").is_none());
    assert_eq!(next(&mut multi), Some(("c".to_string(), 3)));
    assert_eq!(next(&mut multi), Some(("d".to_string(), 4)));
}

#[test]
fn acknowledgements_go_to_the_consumer_of_the_topic() {
    let mut multi = multi_of(vec![("a", vec![one(1)]), ("b", vec![])]);
    let polled = poll(&mut multi, &mut vec![], &mut BTreeMap::new(), &mut vec![]);
    let message = match polled {
        Poll::Ready(Some(Ok(message))) => message,
        _ => panic!("a message was expected"),
    };
    let ack = multi.ack(&message).unwrap();
    assert_eq!(ack.consumer_id, multi.consumer("a").unwrap().id());
    assert_eq!(ack.message_ids, vec![message.message_id.id]);
    assert!(!ack.cumulative);
    multi.remove_consumers(&vec!["a".to_string()]);
    assert_eq!(
        multi.ack(&message).err().unwrap(),
        ConnectionError::Unexpected("no consumer for topic a".to_string())
    );
}

#[test]
fn states_are_published_to_streams_only() {
    let mut multi = multi_of(vec![("b", vec![]), ("a", vec![])]);
    assert!(multi.send_state().is_empty());
    multi.start_state_stream("first");
    multi.start_state_stream("second");
    multi.start_state_stream("third");
    let states = multi.send_state();
    assert_eq!(states.len(), 1);
    assert_eq!(states[0].connected_topics, ["a", "b"]);
    assert_eq!(states[0].clone().connected_topics, ["a", "b"]);
    multi.retain_streams(&vec![true, false, true]);
    assert_eq!(multi.state_streams(), &vec!["first", "third"]);
    multi.retain_streams(&vec![false, false]);
    assert!(multi.send_state().is_empty());
}

#[test]
fn messages_are_counted_with_their_time() {
    let mut multi = multi_of(vec![]);
    multi.start_state_stream("stream");
    let now = Timestamp { secs: 5, subsec_nanos: 6 };
    let states = multi.record_message_at(now);
    assert_eq!(states[0].messages_received, 1);
    assert_eq!(states[0].last_message_received, Some(now));
    let states = multi.record_message();
    assert_eq!(states[0].messages_received, 2);
    // the wall clock is past the year 2020
    assert!(states[0].last_message_received.unwrap().secs > 1_577_836_800);
}

#[test]
fn failed_creation_is_tried_again() {
    let mut multi = multi("a");
    let reaction = multi.poll_next(MultiEvent::Woken, &parse);
    assert!(matches!(reaction.action, MultiAction::PollRefresh));
    let reaction = multi.poll_next(MultiEvent::Refresh(Poll::Ready(Some(()))), &parse);
    assert!(matches!(reaction.action, MultiAction::StartCreation(_)));
    let reaction = multi.poll_next(MultiEvent::Woken, &parse);
    assert!(matches!(reaction.action, MultiAction::PollCreation));
    let reaction = multi.poll_next(MultiEvent::Creation(Poll::Pending), &parse);
    assert!(matches!(reaction.action, MultiAction::PollRefresh));
    let reaction = multi.poll_next(MultiEvent::Refresh(Poll::Pending), &parse);
    assert!(matches!(reaction.action, MultiAction::Return(Poll::Pending)));
    let reaction = multi.poll_next(MultiEvent::Woken, &parse);
    assert!(matches!(reaction.action, MultiAction::PollCreation));
    let failed = Err(Error::Connection(ConnectionError::Disconnected));
    let reaction = multi.poll_next(MultiEvent::Creation(Poll::Ready(failed)), &parse);
    assert!(matches!(reaction.action, MultiAction::PollRefresh));
    // nothing is being created any more
    let reaction = multi.poll_next(MultiEvent::Refresh(Poll::Ready(None)), &parse);
    assert!(matches!(reaction.action, MultiAction::Return(Poll::Pending)));
    let reaction = multi.poll_next(MultiEvent::Woken, &parse);
    assert!(matches!(reaction.action, MultiAction::PollRefresh));
}

#[test]
fn multi_consumer() {
    let send_start = chrono::Utc::now();
    let mut namespace: BTreeMap<String, Script> = BTreeMap::new();
    namespace.insert("mt_test_a".to_string(), vec![one(2), one(1)]);
    namespace.insert("mt_test_b".to_string(), vec![one(4), one(3)]);
    namespace.insert("unrelated".to_string(), vec![one(5)]);
    let data = [Byte(1), Byte(2), Byte(3), Byte(4)];

    let mut consumer: Multi = ConsumerBuilder::new(&())
        .multi_topic(Regex::new("mt_test_[ab]").unwrap())
        .with_namespace("public/default")
        .with_subscription("test_sub")
        .with_subscription_type(SubType::Shared)
        .with_topic_refresh(Duration::from_secs(1))
        .build();
    consumer.start_state_stream("state");

    let mut ticks = vec![Poll::Ready(Some(()))];
    let mut states = vec![];
    let mut counter: usize = 0;
    loop {
        match poll(&mut consumer, &mut ticks, &mut namespace, &mut states) {
            Poll::Ready(Some(Ok(message))) => {
                consumer.ack(&message).unwrap();
                assert!(data.contains(&message.deserialize().unwrap()));
            }
            _ => panic!("Messages not received"),
        }
        counter += 1;
        if counter == 4 {
            break;
        }
    }

    let latest_state = states.last().unwrap();
    assert!(latest_state.messages_received >= 4);
    assert!(latest_state.connected_topics.len() >= 2);
    let received = latest_state.last_message_received.unwrap();
    let start = Timestamp {
        secs: send_start.timestamp(),
        subsec_nanos: send_start.timestamp_subsec_nanos(),
    };
    assert!(received >= start);
    assert!(namespace.contains_key("unrelated"));
}
