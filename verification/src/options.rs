//! Options of a consumer.
use std::collections::BTreeMap;

use crate::message::{MessageIdData, Schema, SchemaView};
use vstd::prelude::*;

verus! {

/// What a consumer may ask of the broker when it subscribes.
#[derive(Debug)]
pub struct ConsumerOptions {
    pub priority_level: Option<i32>,
    pub durable: Option<bool>,
    pub start_message_id: Option<MessageIdData>,
    pub metadata: BTreeMap<String, String>,
    pub read_compacted: Option<bool>,
    pub schema: Option<Schema>,
    pub initial_position: Option<i32>,
}

#[verifier::ext_equal]
pub struct OptionsView {
    pub priority_level: Option<i32>,
    pub durable: Option<bool>,
    pub start_message_id: Option<MessageIdData>,
    pub metadata: Map<String, String>,
    pub read_compacted: Option<bool>,
    pub schema: Option<SchemaView>,
    pub initial_position: Option<i32>,
}

impl OptionsView {
    /// Nothing is asked for.
    pub open spec fn none() -> OptionsView {
        OptionsView {
            priority_level: None,
            durable: None,
            start_message_id: None,
            metadata: Map::empty(),
            read_compacted: None,
            schema: None,
            initial_position: None,
        }
    }
}

impl View for ConsumerOptions {
    type V = OptionsView;

    open spec fn view(&self) -> OptionsView {
        OptionsView {
            priority_level: self.priority_level,
            durable: self.durable,
            start_message_id: self.start_message_id,
            metadata: self.metadata@,
            read_compacted: self.read_compacted,
            schema: match self.schema {
                Some(schema) => Some(schema@),
                None => None,
            },
            initial_position: self.initial_position,
        }
    }
}

impl Clone for ConsumerOptions {
    fn clone(&self) -> (r: ConsumerOptions)
        ensures
            r@ == self@,
    {
        ConsumerOptions {
            priority_level: self.priority_level,
            durable: self.durable,
            start_message_id: self.start_message_id,
            metadata: self.metadata.clone(),
            read_compacted: self.read_compacted,
            schema: self.schema.clone(),
            initial_position: self.initial_position,
        }
    }
}

impl Default for ConsumerOptions {
    fn default() -> (r: ConsumerOptions)
        ensures
            r@ == OptionsView::none(),
    {
        ConsumerOptions {
            priority_level: None,
            durable: None,
            start_message_id: None,
            metadata: BTreeMap::new(),
            read_compacted: None,
            schema: None,
            initial_position: None,
        }
    }
}

/// Two sets of options that look the same ask for the same.
pub proof fn options_are_seen_in_full(a: ConsumerOptions, b: ConsumerOptions)
    requires
        a@ == b@,
    ensures
        a.priority_level == b.priority_level,
        a.durable == b.durable,
        a.start_message_id == b.start_message_id,
        a.metadata@ == b.metadata@,
        a.read_compacted == b.read_compacted,
        match (a.schema, b.schema) {
            (Some(x), Some(y)) => x@ == y@,
            (None, None) => true,
            _ => false,
        },
        a.initial_position == b.initial_position,
{
}

/// Where nothing is asked for, every option is left out.
pub proof fn no_options_ask_for_nothing(options: ConsumerOptions)
    requires
        options@ == OptionsView::none(),
    ensures
        options.priority_level is None,
        options.durable is None,
        options.start_message_id is None,
        options.metadata@ == Map::<String, String>::empty(),
        options.read_compacted is None,
        options.schema is None,
        options.initial_position is None,
{
}

} // verus!
