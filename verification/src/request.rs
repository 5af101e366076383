//! Requests for a consumer.
use crate::message::SubType;
use crate::options::{ConsumerOptions, OptionsView};
use crate::time::Duration;
use vstd::prelude::*;

verus! {

/// What the client is asked to make a consumer of.
#[derive(Debug)]
pub struct ConsumerRequest {
    pub topic: String,
    pub subscription: String,
    pub sub_type: SubType,
    pub batch_size: Option<u32>,
    pub consumer_name: Option<String>,
    pub consumer_id: Option<u64>,
    pub unacked_message_resend_delay: Option<Duration>,
    pub options: ConsumerOptions,
}

#[verifier::ext_equal]
pub struct RequestView {
    pub topic: Seq<char>,
    pub subscription: Seq<char>,
    pub sub_type: SubType,
    pub batch_size: Option<u32>,
    pub consumer_name: Option<Seq<char>>,
    pub consumer_id: Option<u64>,
    pub delay: Option<Duration>,
    pub options: OptionsView,
}

impl View for ConsumerRequest {
    type V = RequestView;

    open spec fn view(&self) -> RequestView {
        RequestView {
            topic: self.topic@,
            subscription: self.subscription@,
            sub_type: self.sub_type,
            batch_size: self.batch_size,
            consumer_name: crate::message::text_view(self.consumer_name),
            consumer_id: self.consumer_id,
            delay: self.unacked_message_resend_delay,
            options: self.options@,
        }
    }
}

/// Two requests that look the same ask for the same.
pub proof fn requests_are_seen_in_full(a: ConsumerRequest, b: ConsumerRequest)
    requires
        a@ == b@,
    ensures
        a.topic@ == b.topic@,
        a.subscription@ == b.subscription@,
        a.sub_type == b.sub_type,
        a.batch_size == b.batch_size,
        match (a.consumer_name, b.consumer_name) {
            (Some(x), Some(y)) => x@ == y@,
            (None, None) => true,
            _ => false,
        },
        a.consumer_id == b.consumer_id,
        a.unacked_message_resend_delay == b.unacked_message_resend_delay,
        a.options@ == b.options@,
{
}

} // verus!
