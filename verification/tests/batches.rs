//! Messages of a batch, one after the other.
use pulsar::batch::BatchedMessageIterator;
use pulsar::error::ConnectionError;
use pulsar::message::{
    BatchedMessage, KeyValue, MessageIdData, Metadata, Payload, SingleMessageMetadata,
};

fn id() -> MessageIdData {
    MessageIdData { ledger_id: 3, entry_id: 4, partition: Some(5), batch_index: None }
}

fn metadata(count: Option<i32>) -> Metadata {
    Metadata {
        producer_name: "producer".to_string(),
        sequence_id: 10,
        publish_time: 20,
        properties: vec![KeyValue { key: "entry".to_string(), value: "e".to_string() }],
        replicated_from: Some("elsewhere".to_string()),
        partition_key: Some("entry key".to_string()),
        compression: None,
        uncompressed_size: Some(7),
        num_messages_in_batch: count,
        event_time: Some(1),
    }
}

fn message(byte: u8) -> BatchedMessage {
    BatchedMessage {
        metadata: SingleMessageMetadata {
            properties: vec![KeyValue { key: "own".to_string(), value: byte.to_string() }],
            partition_key: None,
            event_time: Some(byte as u64),
        },
        payload: vec![byte],
    }
}

#[test]
fn batch_delivers_messages_in_order() {
    let mut batch = BatchedMessageIterator::from_parsed(
        id(),
        metadata(Some(3)),
        3,
        vec![message(7), message(8), message(9)],
    );
    for (index, byte) in [7u8, 8, 9].into_iter().enumerate() {
        let (message_id, payload) = batch.next().unwrap();
        assert_eq!(message_id, MessageIdData { batch_index: Some(index as i32), ..id() });
        assert_eq!(payload.data, vec![byte]);
        assert_eq!(
            payload.metadata,
            Metadata {
                properties: vec![KeyValue { key: "own".to_string(), value: byte.to_string() }],
                partition_key: None,
                event_time: Some(byte as u64),
                ..metadata(Some(3))
            }
        );
    }
    assert!(batch.next().is_none());
    assert!(batch.next().is_none());
}

#[test]
fn batch_ends_at_its_announced_size() {
    let mut batch = BatchedMessageIterator::from_parsed(
        id(),
        metadata(Some(1)),
        1,
        vec![message(1), message(2)],
    );
    assert!(batch.next().is_some());
    assert!(batch.next().is_none());
}

#[test]
fn batch_ends_where_messages_are_missing() {
    let mut batch =
        BatchedMessageIterator::from_parsed(id(), metadata(Some(3)), 3, vec![message(1)]);
    assert!(batch.next().is_some());
    assert!(batch.next().is_none());
    assert!(batch.next().is_none());
}

#[test]
fn batch_is_taken_apart_with_its_count_and_content() {
    let parse = |count: u32, data: &Vec<u8>| {
        assert_eq!(count, 2);
        assert_eq!(data, &vec![40, 41]);
        Ok(data.iter().map(|byte| message(*byte)).collect())
    };
    let payload = Payload { metadata: metadata(Some(2)), data: vec![40, 41] };
    let mut batch = BatchedMessageIterator::new(id(), payload, &parse).ok().unwrap();
    assert_eq!(batch.next().unwrap().1.data, vec![40]);
    assert_eq!(batch.next().unwrap().1.data, vec![41]);
    assert!(batch.next().is_none());
}

#[test]
fn batch_that_cannot_be_taken_apart_is_an_error() {
    let parse = |_: u32, _: &Vec<u8>| Err(ConnectionError::Unexpected("bad batch".to_string()));
    let payload = Payload { metadata: metadata(Some(2)), data: vec![] };
    assert_eq!(
        BatchedMessageIterator::new(id(), payload, &parse).err().unwrap(),
        ConnectionError::Unexpected("bad batch".to_string())
    );
}
