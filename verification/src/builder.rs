//! Builders of consumers.
use crate::consumer::DeserializeMessage;
use crate::message::SubType;
use crate::multi::{MultiTopicConsumer, MultiView};
use crate::options::{ConsumerOptions, OptionsView};
use crate::request::{ConsumerRequest, RequestView};
use crate::time::Duration;
use vstd::prelude::*;

verus! {

/// A part of a builder that was given.
pub struct Given<T>(pub T);

/// A part of a builder that was not given yet.
pub struct Unset;

/// Builds a consumer of one topic, or of all topics that match a pattern. `Client` is what the
/// consumer will be made with; the builder only carries it.
pub struct ConsumerBuilder<'a, Topic, Subscription, SubscriptionType, Client: ?Sized> {
    pub pulsar: &'a Client,
    pub topic: Topic,
    pub subscription: Subscription,
    pub subscription_type: SubscriptionType,
    pub consumer_id: Option<u64>,
    pub consumer_name: Option<String>,
    pub batch_size: Option<u32>,
    pub unacked_message_resend_delay: Option<Duration>,
    pub consumer_options: Option<ConsumerOptions>,
    /// Only used for many topics.
    pub namespace: Option<String>,
    /// Only used for many topics.
    pub topic_refresh: Option<Duration>,
}

/// Two builders agree on everything but the topic, the subscription and its type.
pub open spec fn same_settings<'a, T1, S1, K1, T2, S2, K2, Client: ?Sized>(
    a: ConsumerBuilder<'a, T1, S1, K1, Client>,
    b: ConsumerBuilder<'a, T2, S2, K2, Client>,
) -> bool {
    &&& a.pulsar == b.pulsar
    &&& a.consumer_id == b.consumer_id
    &&& a.consumer_name == b.consumer_name
    &&& a.batch_size == b.batch_size
    &&& a.unacked_message_resend_delay == b.unacked_message_resend_delay
    &&& a.consumer_options == b.consumer_options
    &&& a.namespace == b.namespace
    &&& a.topic_refresh == b.topic_refresh
}

/// The namespace of a multi-topic consumer that was given none.
pub open spec fn default_namespace() -> Seq<char> {
    "public/default"@
}

/// How often a multi-topic consumer looks for new topics if it was not told.
pub open spec fn default_topic_refresh() -> Duration {
    Duration { secs: 30, subsec_nanos: 0 }
}

impl<'a, Client: ?Sized> ConsumerBuilder<'a, Unset, Unset, Unset, Client> {
    /// A builder to which nothing was given yet.
    pub fn new(pulsar: &'a Client) -> (r: Self)
        ensures
            r.pulsar == pulsar,
            r.consumer_id is None,
            r.consumer_name is None,
            r.batch_size is None,
            r.unacked_message_resend_delay is None,
            r.consumer_options is None,
            r.namespace is None,
            r.topic_refresh is None,
    {
        ConsumerBuilder {
            pulsar,
            topic: Unset,
            subscription: Unset,
            subscription_type: Unset,
            consumer_id: None,
            consumer_name: None,
            batch_size: None,
            unacked_message_resend_delay: None,
            consumer_options: None,
            namespace: None,
            topic_refresh: None,
        }
    }
}

impl<'a, Subscription, SubscriptionType, Client: ?Sized> ConsumerBuilder<
    'a,
    Unset,
    Subscription,
    SubscriptionType,
    Client,
> {
    /// Sets the topic.
    pub fn with_topic<S: Into<String>>(
        self,
        topic: S,
    ) -> (r: ConsumerBuilder<'a, Given<String>, Subscription, SubscriptionType, Client>)
        ensures
            call_ensures(S::into, (topic,), r.topic.0),
            r.subscription == self.subscription,
            r.subscription_type == self.subscription_type,
            same_settings(r, self),
    {
        ConsumerBuilder {
            pulsar: self.pulsar,
            topic: Given(topic.into()),
            subscription: self.subscription,
            subscription_type: self.subscription_type,
            consumer_id: self.consumer_id,
            consumer_name: self.consumer_name,
            batch_size: self.batch_size,
            unacked_message_resend_delay: self.unacked_message_resend_delay,
            consumer_options: self.consumer_options,
            namespace: self.namespace,
            topic_refresh: self.topic_refresh,
        }
    }

    /// Sets the pattern of the topics.
    pub fn multi_topic(
        self,
        regex: regex::Regex,
    ) -> (r: ConsumerBuilder<'a, Given<regex::Regex>, Subscription, SubscriptionType, Client>)
        ensures
            r.topic.0 == regex,
            r.subscription == self.subscription,
            r.subscription_type == self.subscription_type,
            same_settings(r, self),
    {
        ConsumerBuilder {
            pulsar: self.pulsar,
            topic: Given(regex),
            subscription: self.subscription,
            subscription_type: self.subscription_type,
            consumer_id: self.consumer_id,
            consumer_name: self.consumer_name,
            batch_size: self.batch_size,
            unacked_message_resend_delay: self.unacked_message_resend_delay,
            consumer_options: self.consumer_options,
            namespace: self.namespace,
            topic_refresh: self.topic_refresh,
        }
    }
}

impl<'a, Topic, SubscriptionType, Client: ?Sized> ConsumerBuilder<
    'a,
    Topic,
    Unset,
    SubscriptionType,
    Client,
> {
    /// Sets the name of the subscription.
    pub fn with_subscription<S: Into<String>>(
        self,
        subscription: S,
    ) -> (r: ConsumerBuilder<'a, Topic, Given<String>, SubscriptionType, Client>)
        ensures
            r.topic == self.topic,
            call_ensures(S::into, (subscription,), r.subscription.0),
            r.subscription_type == self.subscription_type,
            same_settings(r, self),
    {
        ConsumerBuilder {
            pulsar: self.pulsar,
            topic: self.topic,
            subscription: Given(subscription.into()),
            subscription_type: self.subscription_type,
            consumer_id: self.consumer_id,
            consumer_name: self.consumer_name,
            batch_size: self.batch_size,
            unacked_message_resend_delay: self.unacked_message_resend_delay,
            consumer_options: self.consumer_options,
            namespace: self.namespace,
            topic_refresh: self.topic_refresh,
        }
    }
}

impl<'a, Topic, Subscription, Client: ?Sized> ConsumerBuilder<
    'a,
    Topic,
    Subscription,
    Unset,
    Client,
> {
    /// Sets how the subscription shares its messages.
    pub fn with_subscription_type(
        self,
        subscription_type: SubType,
    ) -> (r: ConsumerBuilder<'a, Topic, Subscription, Given<SubType>, Client>)
        ensures
            r.topic == self.topic,
            r.subscription == self.subscription,
            r.subscription_type.0 == subscription_type,
            same_settings(r, self),
    {
        ConsumerBuilder {
            pulsar: self.pulsar,
            topic: self.topic,
            subscription: self.subscription,
            subscription_type: Given(subscription_type),
            consumer_id: self.consumer_id,
            consumer_name: self.consumer_name,
            batch_size: self.batch_size,
            unacked_message_resend_delay: self.unacked_message_resend_delay,
            consumer_options: self.consumer_options,
            namespace: self.namespace,
            topic_refresh: self.topic_refresh,
        }
    }
}

impl<'a, Subscription, SubscriptionType, Client: ?Sized> ConsumerBuilder<
    'a,
    Given<regex::Regex>,
    Subscription,
    SubscriptionType,
    Client,
> {
    /// Sets the namespace whose topics are consumed.
    pub fn with_namespace<S: Into<String>>(self, namespace: S) -> (r: Self)
        ensures
            r.namespace is Some,
            call_ensures(S::into, (namespace,), r.namespace->0),
            r == (ConsumerBuilder { namespace: r.namespace, ..self }),
    {
        ConsumerBuilder { namespace: Some(namespace.into()), ..self }
    }

    /// Sets how often to look for new topics.
    pub fn with_topic_refresh(self, refresh_interval: Duration) -> (r: Self)
        ensures
            r == (ConsumerBuilder { topic_refresh: Some(refresh_interval), ..self }),
    {
        ConsumerBuilder { topic_refresh: Some(refresh_interval), ..self }
    }
}

impl<'a, Topic, Subscription, SubscriptionType, Client: ?Sized> ConsumerBuilder<
    'a,
    Topic,
    Subscription,
    SubscriptionType,
    Client,
> {
    /// Sets the id under which the consumer is known to the broker.
    pub fn with_consumer_id(self, consumer_id: u64) -> (r: Self)
        ensures
            r == (ConsumerBuilder { consumer_id: Some(consumer_id), ..self }),
    {
        ConsumerBuilder { consumer_id: Some(consumer_id), ..self }
    }

    /// Sets the name of the consumer.
    pub fn with_consumer_name<S: Into<String>>(self, consumer_name: S) -> (r: Self)
        ensures
            r.consumer_name is Some,
            call_ensures(S::into, (consumer_name,), r.consumer_name->0),
            r == (ConsumerBuilder { consumer_name: r.consumer_name, ..self }),
    {
        ConsumerBuilder { consumer_name: Some(consumer_name.into()), ..self }
    }

    /// Sets how many messages the broker may send ahead.
    pub fn with_batch_size(self, batch_size: u32) -> (r: Self)
        ensures
            r == (ConsumerBuilder { batch_size: Some(batch_size), ..self }),
    {
        ConsumerBuilder { batch_size: Some(batch_size), ..self }
    }

    /// Sets what is asked of the broker when the consumer subscribes.
    pub fn with_options(self, options: ConsumerOptions) -> (r: Self)
        ensures
            r == (ConsumerBuilder { consumer_options: Some(options), ..self }),
    {
        ConsumerBuilder { consumer_options: Some(options), ..self }
    }

    /// Sets the time after which a message is resent that was negatively acknowledged, or dropped
    /// without being acknowledged or negatively acknowledged. With `None`, messages are only resent
    /// when a consumer disconnects with pending unacknowledged messages.
    pub fn with_unacked_message_resend_delay(self, delay: Option<Duration>) -> (r: Self)
        ensures
            r == (ConsumerBuilder { unacked_message_resend_delay: delay, ..self }),
    {
        ConsumerBuilder { unacked_message_resend_delay: delay, ..self }
    }
}

impl<'a, Client: ?Sized> ConsumerBuilder<
    'a,
    Given<String>,
    Given<String>,
    Given<SubType>,
    Client,
> {
    /// The consumer to ask the client for. Without options, the default ones are asked for.
    pub fn build(self) -> (r: ConsumerRequest)
        ensures
            r@ == (RequestView {
                topic: self.topic.0@,
                subscription: self.subscription.0@,
                sub_type: self.subscription_type.0,
                batch_size: self.batch_size,
                consumer_name: crate::message::text_view(self.consumer_name),
                consumer_id: self.consumer_id,
                delay: self.unacked_message_resend_delay,
                options: match self.consumer_options {
                    Some(options) => options@,
                    None => OptionsView::none(),
                },
            }),
    {
        ConsumerRequest {
            topic: self.topic.0,
            subscription: self.subscription.0,
            sub_type: self.subscription_type.0,
            batch_size: self.batch_size,
            consumer_name: self.consumer_name,
            consumer_id: self.consumer_id,
            unacked_message_resend_delay: self.unacked_message_resend_delay,
            options: match self.consumer_options {
                Some(options) => options,
                None => ConsumerOptions::default(),
            },
        }
    }
}

impl<'a, Client: ?Sized> ConsumerBuilder<
    'a,
    Given<regex::Regex>,
    Given<String>,
    Given<SubType>,
    Client,
> {
    /// The multi-topic consumer. A consumer id, a name, a batch size and options are not used: its
    /// consumers get ids at random, no names, and the defaults of the others.
    pub fn build<T: DeserializeMessage, Io, S>(self) -> (r: MultiTopicConsumer<T, Io, S>)
        ensures
            r.wf(),
            r@ == (MultiView::<Io, S> {
                namespace: match self.namespace {
                    Some(namespace) => namespace@,
                    None => default_namespace(),
                },
                pattern: self.topic.0,
                delay: self.unacked_message_resend_delay,
                consumers: Map::empty(),
                queue: seq![],
                creating: false,
                topic_refresh: match self.topic_refresh {
                    Some(interval) => interval,
                    None => default_topic_refresh(),
                },
                subscription: self.subscription.0@,
                sub_type: self.subscription_type.0,
                options: OptionsView::none(),
                last_message_received: None,
                messages_received: 0,
                streams: seq![],
                round: None,
            }),
    {
        let namespace: String = match self.namespace {
            Some(namespace) => namespace,
            None => String::from("public/default"),
        };
        let topic_refresh: Duration = match self.topic_refresh {
            Some(interval) => interval,
            None => Duration::from_secs(30),
        };
        MultiTopicConsumer::new(
            namespace,
            self.topic.0,
            self.subscription.0,
            self.subscription_type.0,
            topic_refresh,
            self.unacked_message_resend_delay,
            ConsumerOptions::default(),
        )
    }
}

/// Setting the topic, the subscription or its type changes none of the other settings.
pub proof fn settings_are_kept<'a, T1, S1, K1, T2, S2, K2, Client: ?Sized>(
    a: ConsumerBuilder<'a, T1, S1, K1, Client>,
    b: ConsumerBuilder<'a, T2, S2, K2, Client>,
)
    requires
        same_settings(a, b),
    ensures
        a.pulsar == b.pulsar,
        a.consumer_id == b.consumer_id,
        a.consumer_name == b.consumer_name,
        a.batch_size == b.batch_size,
        a.unacked_message_resend_delay == b.unacked_message_resend_delay,
        a.consumer_options == b.consumer_options,
        a.namespace == b.namespace,
        a.topic_refresh == b.topic_refresh,
{
}

/// A multi-topic consumer that was not told otherwise consumes the namespace `public/default`, and
/// looks for new topics every 30 seconds.
pub proof fn defaults_are_the_documented_ones()
    ensures
        default_namespace() == "public/default"@,
        default_topic_refresh().nanos() == 30_000_000_000,
{
}

} // verus!
