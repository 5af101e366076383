//! What the broker sends: message ids, metadata, payloads and commands.
use vstd::prelude::*;

verus! {

/// The place of a message in a topic.
#[derive(Clone, Copy, Debug, PartialEq, Eq, PartialOrd, Ord, Hash, Structural)]
pub struct MessageIdData {
    pub ledger_id: u64,
    pub entry_id: u64,
    pub partition: Option<i32>,
    pub batch_index: Option<i32>,
}

impl MessageIdData {
    /// The id of the entry that this message is stored in, without its place in a batch.
    pub open spec fn entry(self) -> MessageIdData {
        MessageIdData { batch_index: None, ..self }
    }

    /// The id of the message at `index` of the batch that is stored in this entry.
    pub open spec fn at(self, index: u32) -> MessageIdData {
        MessageIdData { batch_index: Some(index as i32), ..self }
    }
}

/// How a subscription shares its messages among its consumers.
#[derive(Clone, Copy, Debug, PartialEq, Eq, Hash, Structural)]
pub enum SubType {
    Exclusive,
    Shared,
    Failover,
    KeyShared,
}

/// A named property.
#[derive(Debug, PartialEq, Eq)]
pub struct KeyValue {
    pub key: String,
    pub value: String,
}

#[verifier::ext_equal]
pub struct KeyValueView {
    pub key: Seq<char>,
    pub value: Seq<char>,
}

impl View for KeyValue {
    type V = KeyValueView;

    open spec fn view(&self) -> KeyValueView {
        KeyValueView { key: self.key@, value: self.value@ }
    }
}

impl Clone for KeyValue {
    fn clone(&self) -> (r: KeyValue)
        ensures
            r@ == self@,
    {
        KeyValue { key: self.key.clone(), value: self.value.clone() }
    }
}

/// What a list of properties holds.
pub open spec fn properties_view(properties: Seq<KeyValue>) -> Seq<KeyValueView> {
    properties.map_values(|p: KeyValue| p@)
}

/// The text of an optional string.
pub open spec fn text_view(text: Option<String>) -> Option<Seq<char>> {
    match text {
        Some(text) => Some(text@),
        None => None,
    }
}

/// Copies a list of properties.
pub(crate) fn clone_properties(properties: &Vec<KeyValue>) -> (r: Vec<KeyValue>)
    ensures
        properties_view(r@) == properties_view(properties@),
{
    let r = properties.clone();
    assert(properties_view(r@) =~= properties_view(properties@)) by {
        assert forall|i: int| 0 <= i < properties@.len() implies r@[i]@ == properties@[i]@ by {
            assert(cloned::<KeyValue>(properties@[i], r@[i]));
        }
    }
    r
}

/// Metadata of an entry.
#[derive(Debug, PartialEq, Eq)]
pub struct Metadata {
    pub producer_name: String,
    pub sequence_id: u64,
    pub publish_time: u64,
    pub properties: Vec<KeyValue>,
    pub replicated_from: Option<String>,
    pub partition_key: Option<String>,
    pub compression: Option<i32>,
    pub uncompressed_size: Option<u32>,
    pub num_messages_in_batch: Option<i32>,
    pub event_time: Option<u64>,
}

#[verifier::ext_equal]
pub struct MetadataView {
    pub producer_name: Seq<char>,
    pub sequence_id: u64,
    pub publish_time: u64,
    pub properties: Seq<KeyValueView>,
    pub replicated_from: Option<Seq<char>>,
    pub partition_key: Option<Seq<char>>,
    pub compression: Option<i32>,
    pub uncompressed_size: Option<u32>,
    pub num_messages_in_batch: Option<i32>,
    pub event_time: Option<u64>,
}

impl View for Metadata {
    type V = MetadataView;

    open spec fn view(&self) -> MetadataView {
        MetadataView {
            producer_name: self.producer_name@,
            sequence_id: self.sequence_id,
            publish_time: self.publish_time,
            properties: properties_view(self.properties@),
            replicated_from: text_view(self.replicated_from),
            partition_key: text_view(self.partition_key),
            compression: self.compression,
            uncompressed_size: self.uncompressed_size,
            num_messages_in_batch: self.num_messages_in_batch,
            event_time: self.event_time,
        }
    }
}

impl Clone for Metadata {
    fn clone(&self) -> (r: Metadata)
        ensures
            r@ == self@,
    {
        Metadata {
            producer_name: self.producer_name.clone(),
            sequence_id: self.sequence_id,
            publish_time: self.publish_time,
            properties: clone_properties(&self.properties),
            replicated_from: self.replicated_from.clone(),
            partition_key: self.partition_key.clone(),
            compression: self.compression,
            uncompressed_size: self.uncompressed_size,
            num_messages_in_batch: self.num_messages_in_batch,
            event_time: self.event_time,
        }
    }
}

/// Metadata and content of an entry, or of one message of a batch.
#[derive(Debug, PartialEq, Eq)]
pub struct Payload {
    pub metadata: Metadata,
    pub data: Vec<u8>,
}

#[verifier::ext_equal]
pub struct PayloadView {
    pub metadata: MetadataView,
    pub data: Seq<u8>,
}

impl View for Payload {
    type V = PayloadView;

    open spec fn view(&self) -> PayloadView {
        PayloadView { metadata: self.metadata@, data: self.data@ }
    }
}

/// Metadata that each message of a batch has of its own.
#[derive(Debug, PartialEq, Eq)]
pub struct SingleMessageMetadata {
    pub properties: Vec<KeyValue>,
    pub partition_key: Option<String>,
    pub event_time: Option<u64>,
}

/// One message of a batch.
#[derive(Debug, PartialEq, Eq)]
pub struct BatchedMessage {
    pub metadata: SingleMessageMetadata,
    pub payload: Vec<u8>,
}

#[verifier::ext_equal]
pub struct BatchedMessageView {
    pub properties: Seq<KeyValueView>,
    pub partition_key: Option<Seq<char>>,
    pub event_time: Option<u64>,
    pub payload: Seq<u8>,
}

impl View for BatchedMessage {
    type V = BatchedMessageView;

    open spec fn view(&self) -> BatchedMessageView {
        BatchedMessageView {
            properties: properties_view(self.metadata.properties@),
            partition_key: text_view(self.metadata.partition_key),
            event_time: self.metadata.event_time,
            payload: self.payload@,
        }
    }
}

/// The command by which the broker delivers an entry.
#[derive(Clone, Copy, Debug, PartialEq, Eq, Structural)]
pub struct CommandMessage {
    pub message_id: MessageIdData,
}

/// A command of the broker, as far as a consumer reads it.
#[derive(Clone, Copy, Debug, PartialEq, Eq, Structural)]
pub struct BaseCommand {
    pub message: Option<CommandMessage>,
}

/// A frame of the broker: a command and what comes with it.
#[derive(Debug, PartialEq, Eq)]
pub struct RawMessage {
    pub command: BaseCommand,
    pub payload: Option<Payload>,
}

/// A schema that a consumer asks for.
#[derive(Debug, PartialEq, Eq)]
pub struct Schema {
    pub name: String,
    pub schema_data: Vec<u8>,
    pub type_code: i32,
    pub properties: Vec<KeyValue>,
}

#[verifier::ext_equal]
pub struct SchemaView {
    pub name: Seq<char>,
    pub schema_data: Seq<u8>,
    pub type_code: i32,
    pub properties: Seq<KeyValueView>,
}

impl View for Schema {
    type V = SchemaView;

    open spec fn view(&self) -> SchemaView {
        SchemaView {
            name: self.name@,
            schema_data: self.schema_data@,
            type_code: self.type_code,
            properties: properties_view(self.properties@),
        }
    }
}

impl Clone for Schema {
    fn clone(&self) -> (r: Schema)
        ensures
            r@ == self@,
    {
        let schema_data = self.schema_data.clone();
        assert(schema_data@ =~= self.schema_data@);
        Schema {
            name: self.name.clone(),
            schema_data,
            type_code: self.type_code,
            properties: clone_properties(&self.properties),
        }
    }
}

/// Two entries that look the same have the same content and metadata.
pub proof fn payloads_are_seen_in_full(a: Payload, b: Payload)
    requires
        a@ == b@,
    ensures
        a.data@ == b.data@,
        a.metadata.producer_name@ == b.metadata.producer_name@,
        a.metadata.sequence_id == b.metadata.sequence_id,
        a.metadata.publish_time == b.metadata.publish_time,
        a.metadata.properties@.len() == b.metadata.properties@.len(),
        forall|i: int|
            0 <= i < a.metadata.properties@.len() ==> (#[trigger] a.metadata.properties@[i]).key@
                == b.metadata.properties@[i].key@ && a.metadata.properties@[i].value@
                == b.metadata.properties@[i].value@,
        match (a.metadata.replicated_from, b.metadata.replicated_from) {
            (Some(x), Some(y)) => x@ == y@,
            (None, None) => true,
            _ => false,
        },
        match (a.metadata.partition_key, b.metadata.partition_key) {
            (Some(x), Some(y)) => x@ == y@,
            (None, None) => true,
            _ => false,
        },
        a.metadata.compression == b.metadata.compression,
        a.metadata.uncompressed_size == b.metadata.uncompressed_size,
        a.metadata.num_messages_in_batch == b.metadata.num_messages_in_batch,
        a.metadata.event_time == b.metadata.event_time,
{
    let x = properties_view(a.metadata.properties@);
    let y = properties_view(b.metadata.properties@);
    assert(a@.metadata.properties == x && b@.metadata.properties == y);
    assert(x.len() == y.len());
    assert forall|i: int| 0 <= i < a.metadata.properties@.len() implies (
    #[trigger] a.metadata.properties@[i]).key@ == b.metadata.properties@[i].key@
        && a.metadata.properties@[i].value@ == b.metadata.properties@[i].value@ by {
        assert(x[i] == a.metadata.properties@[i]@);
        assert(y[i] == b.metadata.properties@[i]@);
    }
}

/// Two messages of batches that look the same have the same content and metadata.
pub proof fn batched_messages_are_seen_in_full(a: BatchedMessage, b: BatchedMessage)
    requires
        a@ == b@,
    ensures
        a.payload@ == b.payload@,
        a.metadata.event_time == b.metadata.event_time,
        match (a.metadata.partition_key, b.metadata.partition_key) {
            (Some(x), Some(y)) => x@ == y@,
            (None, None) => true,
            _ => false,
        },
        a.metadata.properties@.len() == b.metadata.properties@.len(),
        forall|i: int|
            0 <= i < a.metadata.properties@.len() ==> (#[trigger] a.metadata.properties@[i]).key@
                == b.metadata.properties@[i].key@ && a.metadata.properties@[i].value@
                == b.metadata.properties@[i].value@,
{
    let x = properties_view(a.metadata.properties@);
    let y = properties_view(b.metadata.properties@);
    assert(a@.properties == x && b@.properties == y);
    assert(x.len() == y.len());
    assert forall|i: int| 0 <= i < a.metadata.properties@.len() implies (
    #[trigger] a.metadata.properties@[i]).key@ == b.metadata.properties@[i].key@
        && a.metadata.properties@[i].value@ == b.metadata.properties@[i].value@ by {
        assert(x[i] == a.metadata.properties@[i]@);
        assert(y[i] == b.metadata.properties@[i]@);
    }
}

/// Two schemas that look the same are the same.
pub proof fn schemas_are_seen_in_full(a: Schema, b: Schema)
    requires
        a@ == b@,
    ensures
        a.name@ == b.name@,
        a.schema_data@ == b.schema_data@,
        a.type_code == b.type_code,
        a.properties@.len() == b.properties@.len(),
        forall|i: int|
            0 <= i < a.properties@.len() ==> (#[trigger] a.properties@[i]).key@
                == b.properties@[i].key@ && a.properties@[i].value@ == b.properties@[i].value@,
{
    let x = properties_view(a.properties@);
    let y = properties_view(b.properties@);
    assert(a@.properties == x && b@.properties == y);
    assert(x.len() == y.len());
    assert forall|i: int| 0 <= i < a.properties@.len() implies (
    #[trigger] a.properties@[i]).key@ == b.properties@[i].key@ && a.properties@[i].value@
        == b.properties@[i].value@ by {
        assert(x[i] == a.properties@[i]@);
        assert(y[i] == b.properties@[i]@);
    }
}

} // verus!
