//! Which topics of a namespace get a consumer.
use crate::message::SubType;
use crate::options::{ConsumerOptions, OptionsView};
use crate::request::{ConsumerRequest, RequestView};
use crate::text_list::holds_text;
use crate::time::Duration;
use vstd::prelude::*;

verus! {

/// A look for new topics of a namespace, made of what the multi-topic consumer knew when the look
/// began.
pub struct Refresh {
    namespace: String,
    existing_topics: Vec<String>,
    topic_regex: regex::Regex,
    subscription: String,
    sub_type: SubType,
    unacked_message_resend_delay: Option<Duration>,
    options: ConsumerOptions,
}

#[verifier::ext_equal]
pub struct RefreshView {
    pub namespace: Seq<char>,
    /// The topics that have a consumer.
    pub existing: Set<Seq<char>>,
    /// The topic names that match the pattern.
    pub wanted: Set<Seq<char>>,
    pub subscription: Seq<char>,
    pub sub_type: SubType,
    pub delay: Option<Duration>,
    pub options: OptionsView,
}

impl RefreshView {
    /// A topic gets a consumer if its name matches the pattern and it has none yet.
    pub open spec fn selects(self, topic: Seq<char>) -> bool {
        !self.existing.contains(topic) && self.wanted.contains(topic)
    }

    /// The consumer that a topic gets.
    pub open spec fn request(self, topic: Seq<char>) -> RequestView {
        RequestView {
            topic,
            subscription: self.subscription,
            sub_type: self.sub_type,
            batch_size: None,
            consumer_name: None,
            consumer_id: None,
            delay: self.delay,
            options: self.options,
        }
    }

    /// The consumers that the topics of the namespace get.
    pub open spec fn requests(self, topics: Seq<Seq<char>>) -> Seq<RequestView> {
        topics.filter(|topic: Seq<char>| self.selects(topic)).map_values(
            |topic: Seq<char>| self.request(topic),
        )
    }
}

impl View for Refresh {
    type V = RefreshView;

    closed spec fn view(&self) -> RefreshView {
        RefreshView {
            namespace: self.namespace@,
            existing: crate::text_list::texts(self.existing_topics@).to_set(),
            wanted: crate::pattern::matched(self.topic_regex),
            subscription: self.subscription@,
            sub_type: self.sub_type,
            delay: self.unacked_message_resend_delay,
            options: self.options@,
        }
    }
}

/// The views of requests.
pub open spec fn request_views(requests: Seq<ConsumerRequest>) -> Seq<RequestView> {
    requests.map_values(|r: ConsumerRequest| r@)
}

impl Refresh {
    pub fn new(
        namespace: String,
        existing_topics: Vec<String>,
        topic_regex: regex::Regex,
        subscription: String,
        sub_type: SubType,
        unacked_message_resend_delay: Option<Duration>,
        options: ConsumerOptions,
    ) -> (r: Refresh)
        ensures
            r@ == (RefreshView {
                namespace: namespace@,
                existing: crate::text_list::texts(existing_topics@).to_set(),
                wanted: crate::pattern::matched(topic_regex),
                subscription: subscription@,
                sub_type,
                delay: unacked_message_resend_delay,
                options: options@,
            }),
    {
        Refresh {
            namespace,
            existing_topics,
            topic_regex,
            subscription,
            sub_type,
            unacked_message_resend_delay,
            options,
        }
    }

    /// The namespace whose topics are to be fetched.
    pub fn namespace(&self) -> (r: &str)
        ensures
            r@ == self@.namespace,
    {
        self.namespace.as_str()
    }

    /// The consumer to create for a topic, if it gets one, given whether its name matches the
    /// pattern.
    pub fn request_for(&self, topic: String, is_match: bool) -> (r: Option<ConsumerRequest>)
        ensures
            match r {
                Some(request) => {
                    &&& is_match
                    &&& !self@.existing.contains(topic@)
                    &&& request@ == self@.request(topic@)
                },
                None => !is_match || self@.existing.contains(topic@),
            },
    {
        if holds_text(&self.existing_topics, &topic) || !is_match {
            return None;
        }
        Some(
            ConsumerRequest {
                topic,
                subscription: self.subscription.clone(),
                sub_type: self.sub_type,
                batch_size: None,
                consumer_name: None,
                consumer_id: None,
                unacked_message_resend_delay: self.unacked_message_resend_delay,
                options: self.options.clone(),
            },
        )
    }

    /// The consumers to create, given the topics of the namespace.
    pub fn requests(&self, topics: Vec<String>) -> (r: Vec<ConsumerRequest>)
        ensures
            request_views(r@) == self@.requests(crate::text_list::texts(topics@)),
    {
        let ghost names = crate::text_list::texts(topics@);
        let ghost list = topics@;
        let ghost view = self@;
        let ghost pred = |topic: Seq<char>| view.selects(topic);
        let ghost make = |topic: Seq<char>| view.request(topic);
        let mut r: Vec<ConsumerRequest> = Vec::new();
        proof {
            reveal(Seq::filter);
            assert(request_views(r@) =~= names.take(0).filter(pred).map_values(make));
        }
        for topic in it: topics
            invariant
                it.seq() == list,
                names == crate::text_list::texts(list),
                view == self@,
                pred == (|topic: Seq<char>| view.selects(topic)),
                make == (|topic: Seq<char>| view.request(topic)),
                request_views(r@) == names.take(it.index() as int).filter(pred).map_values(make),
        {
            let ghost i = it.index() as int;
            let ghost name = topic@;
            proof {
                assert(names[i] == name);
                assert(names.take(i + 1) =~= names.take(i).push(name));
                crate::text_list::lemma_filter_push(names.take(i), name, pred);
            }
            let is_match: bool = self.topic_regex.is_match(topic.as_str());
            if let Some(request) = self.request_for(topic, is_match) {
                let ghost was = r@;
                r.push(request);
                proof {
                    assert(request_views(r@) =~= request_views(was).push(view.request(name)));
                    assert(names.take(i + 1).filter(pred).map_values(make) =~= names.take(
                        i,
                    ).filter(pred).map_values(make).push(view.request(name)));
                }
            }
        }
        assert(names.take(names.len() as int) =~= names);
        r
    }
}

/// A look for new topics asks for consumers of exactly those topics of the namespace that match
/// the pattern and had no consumer when the look began.
pub proof fn refresh_asks_for_new_topics(
    refresh: RefreshView,
    topics: Seq<Seq<char>>,
    topic: Seq<char>,
)
    ensures
        (exists|i: int|
            0 <= i < refresh.requests(topics).len() && (#[trigger] refresh.requests(
                topics,
            )[i]).topic == topic) <==> topics.contains(topic) && !refresh.existing.contains(topic)
            && refresh.wanted.contains(topic),
{
    let pred = |t: Seq<char>| refresh.selects(t);
    let names = topics.filter(pred);
    crate::text_list::lemma_filter_contains(topics, pred, topic);
    let requests = refresh.requests(topics);
    if names.contains(topic) {
        let i = choose|i: int| 0 <= i < names.len() && names[i] == topic;
        assert(requests[i].topic == topic);
    }
    if exists|i: int| 0 <= i < requests.len() && (#[trigger] requests[i]).topic == topic {
        let i = choose|i: int| 0 <= i < requests.len() && (#[trigger] requests[i]).topic == topic;
        assert(names[i] == topic);
    }
}

/// Every consumer that a look for new topics asks for has the subscription, the type of
/// subscription, the options and the redelivery delay of the look, and neither a batch size nor a
/// name nor an id.
pub proof fn requests_carry_the_settings(refresh: RefreshView, topics: Seq<Seq<char>>, i: int)
    requires
        0 <= i < refresh.requests(topics).len(),
    ensures
        refresh.requests(topics)[i].subscription == refresh.subscription,
        refresh.requests(topics)[i].sub_type == refresh.sub_type,
        refresh.requests(topics)[i].delay == refresh.delay,
        refresh.requests(topics)[i].options == refresh.options,
        refresh.requests(topics)[i].batch_size is None,
        refresh.requests(topics)[i].consumer_name is None,
        refresh.requests(topics)[i].consumer_id is None,
        topics.contains(refresh.requests(topics)[i].topic),
        refresh.wanted.contains(refresh.requests(topics)[i].topic),
        !refresh.existing.contains(refresh.requests(topics)[i].topic),
{
    let pred = |t: Seq<char>| refresh.selects(t);
    let names = topics.filter(pred);
    assert(names.contains(names[i]));
    crate::text_list::lemma_filter_contains(topics, pred, names[i]);
}

/// The topics of a namespace are gone through in order, each by itself.
pub proof fn topics_are_taken_in_order(
    refresh: RefreshView,
    first: Seq<Seq<char>>,
    second: Seq<Seq<char>>,
    topic: Seq<char>,
)
    ensures
        refresh.requests(first + second) == refresh.requests(first) + refresh.requests(second),
        refresh.requests(seq![]).len() == 0,
        refresh.wanted.contains(topic) && !refresh.existing.contains(topic) ==> refresh.requests(
            seq![topic],
        ).len() == 1 && refresh.requests(seq![topic])[0].topic == topic,
        !refresh.wanted.contains(topic) || refresh.existing.contains(topic) ==> refresh.requests(
            seq![topic],
        ).len() == 0,
{
    let pred = |t: Seq<char>| refresh.selects(t);
    let make = |t: Seq<char>| refresh.request(t);
    Seq::filter_distributes_over_add(first, second, pred);
    assert((first.filter(pred) + second.filter(pred)).map_values(make) =~= first.filter(
        pred,
    ).map_values(make) + second.filter(pred).map_values(make));
    reveal(Seq::filter);
    let none = Seq::<Seq<char>>::empty();
    assert(none.filter(pred).len() == 0);
    assert(seq![topic] =~= none.push(topic));
    crate::text_list::lemma_filter_push(none, topic, pred);
    assert(none.filter(pred) =~= none);
}

} // verus!
