//! A consumer of all topics of a namespace whose names match a pattern.
use std::collections::VecDeque;

use crate::consumer::{
    AckRequest, Consumer, ConsumerView, DeserializeMessage, Message, MessageView, PollAction,
    PollEvent, Polled,
};
use crate::consumer_set::ConsumerSet;
use crate::error::{ConnectionError, Error};
use crate::message::{BatchedMessage, SubType};
use crate::options::{ConsumerOptions, OptionsView};
use crate::poll::Poll;
use crate::refresh::{Refresh, RefreshView};
use crate::text_list::holds_text;
use crate::time::{wall_clock, Duration, Timestamp};
use vstd::prelude::*;

verus! {

/// Details about the current state of a multi-topic consumer.
#[derive(Debug)]
pub struct ConsumerState {
    pub connected_topics: Vec<String>,
    pub last_message_received: Option<Timestamp>,
    pub messages_received: u64,
}

impl Clone for ConsumerState {
    fn clone(&self) -> (r: ConsumerState)
        ensures
            r.connected_topics@ == self.connected_topics@,
            r.last_message_received == self.last_message_received,
            r.messages_received == self.messages_received,
    {
        let r = ConsumerState {
            connected_topics: self.connected_topics.clone(),
            last_message_received: self.last_message_received,
            messages_received: self.messages_received,
        };
        assert(r.connected_topics@ =~= self.connected_topics@);
        r
    }
}

/// A round through the topics that is under way.
struct Round {
    /// The topic whose consumer is being polled.
    topic: String,
    /// How many topics are still to come.
    left: usize,
    /// The topics whose consumers failed in this round.
    failed: Vec<String>,
}

/// A consumer of all topics of a namespace whose names match a pattern. `Io` is what its owner
/// needs to talk to the broker on behalf of one topic, and `S` a stream that wants to hear of
/// changes of its state.
pub struct MultiTopicConsumer<T: DeserializeMessage, Io, S> {
    namespace: String,
    topic_regex: regex::Regex,
    unacked_message_resend_delay: Option<Duration>,
    consumers: ConsumerSet<T, Io>,
    topics: VecDeque<String>,
    creating: bool,
    topic_refresh: Duration,
    subscription: String,
    sub_type: SubType,
    options: ConsumerOptions,
    last_message_received: Option<Timestamp>,
    messages_received: u64,
    state_streams: Vec<S>,
    round: Option<Round>,
}

/// One of the consumers, with what it carries.
pub struct Member<Io> {
    pub consumer: ConsumerView,
    pub io: Io,
}

#[verifier::ext_equal]
pub struct RoundView {
    pub topic: Seq<char>,
    pub left: nat,
    pub failed: Seq<Seq<char>>,
}

#[verifier::ext_equal]
pub struct MultiView<Io, S> {
    pub namespace: Seq<char>,
    /// The pattern of the topic names.
    pub pattern: regex::Regex,
    pub delay: Option<Duration>,
    pub consumers: Map<Seq<char>, Member<Io>>,
    /// The topics in the order in which they will be polled.
    pub queue: Seq<Seq<char>>,
    /// Whether new consumers are being created.
    pub creating: bool,
    pub topic_refresh: Duration,
    pub subscription: Seq<char>,
    pub sub_type: SubType,
    pub options: OptionsView,
    pub last_message_received: Option<Timestamp>,
    pub messages_received: u64,
    pub streams: Seq<S>,
    pub round: Option<RoundView>,
}

/// The view of a consumer and what it carries.
pub open spec fn member<T: DeserializeMessage, Io>(consumer: Consumer<T, Io>) -> Member<Io> {
    Member { consumer: consumer@, io: consumer.carried() }
}

/// The members that a list of consumers makes.
pub open spec fn members<T: DeserializeMessage, Io>(consumers: Seq<Consumer<T, Io>>) -> Seq<
    Member<Io>,
> {
    consumers.map_values(|c: Consumer<T, Io>| member(c))
}

impl<Io, S> MultiView<Io, S> {
    /// The topic is waiting for its turn, or is being polled.
    pub open spec fn visits(self, topic: Seq<char>) -> bool {
        self.queue.contains(topic) || (self.round is Some && self.round->0.topic == topic)
    }

    /// Exactly the topics that have a consumer are visited.
    pub open spec fn wf(self) -> bool {
        &&& forall|topic: Seq<char>| #[trigger]
            self.consumers.contains_key(topic) <==> self.visits(topic)
        &&& forall|topic: Seq<char>| #[trigger]
            self.consumers.contains_key(topic) ==> self.consumers[topic].consumer.topic == topic
                && self.consumers[topic].consumer.wf()
        &&& self.round is Some ==> self.round->0.left <= self.queue.len()
    }

    /// After one more consumer was created.
    pub open spec fn with_member(self, new: Member<Io>) -> MultiView<Io, S> {
        MultiView {
            consumers: self.consumers.insert(new.consumer.topic, new),
            queue: self.queue.push(new.consumer.topic),
            ..self
        }
    }

    /// After consumers were created, one after the other.
    pub open spec fn added(self, new: Seq<Member<Io>>) -> MultiView<Io, S>
        decreases new.len(),
    {
        if new.len() == 0 {
            self
        } else {
            self.added(new.drop_last()).with_member(new.last())
        }
    }

    /// After the consumers of some topics were dropped. The others keep their order.
    pub open spec fn removed(self, topics: Seq<Seq<char>>) -> MultiView<Io, S> {
        MultiView {
            consumers: self.consumers.remove_keys(topics.to_set()),
            queue: self.queue.filter(|topic: Seq<char>| !topics.contains(topic)),
            ..self
        }
    }

    /// After a message was received at `now`.
    pub open spec fn recorded(self, now: Timestamp) -> MultiView<Io, S> {
        MultiView {
            last_message_received: Some(now),
            messages_received: (self.messages_received + 1) as u64,
            ..self
        }
    }

    /// The look for new topics that would begin now.
    pub open spec fn refresh(self) -> RefreshView {
        RefreshView {
            namespace: self.namespace,
            existing: self.consumers.dom(),
            wanted: crate::pattern::matched(self.pattern),
            subscription: self.subscription,
            sub_type: self.sub_type,
            delay: self.delay,
            options: self.options,
        }
    }

    /// The consumer that is being polled.
    pub open spec fn polled_member(self) -> Member<Io> {
        self.consumers[self.round->0.topic]
    }

    /// After the consumer that is being polled took a step.
    pub open spec fn stepped(self, consumer: ConsumerView) -> MultiView<Io, S> {
        MultiView {
            consumers: self.consumers.insert(
                self.round->0.topic,
                Member { consumer, io: self.polled_member().io },
            ),
            ..self
        }
    }

    /// After the topic that was polled went to the end of the queue.
    pub open spec fn requeued(self) -> MultiView<Io, S> {
        MultiView { queue: self.queue.push(self.round->0.topic), round: None, ..self }
    }

    /// After the topic at the front got its turn, with `left` turns to come, its own one included:
    /// its consumer looked for the next message of its current batch.
    pub open spec fn turned(self, left: nat, failed: Seq<Seq<char>>) -> MultiView<Io, S> {
        MultiView {
            queue: self.queue.drop_first(),
            round: Some(RoundView { topic: self.queue[0], left: (left - 1) as nat, failed }),
            ..self
        }.stepped(self.consumers[self.queue[0]].consumer.after_current())
    }

    /// What the streams are told: the connected topics in order, and what was received so far.
    pub open spec fn describes(self, state: ConsumerState) -> bool {
        &&& crate::text_list::in_order(crate::text_list::texts(state.connected_topics@))
        &&& forall|topic: Seq<char>| #[trigger]
            crate::text_list::texts(state.connected_topics@).contains(topic)
                <==> self.consumers.contains_key(topic)
        &&& state.last_message_received == self.last_message_received
        &&& state.messages_received == self.messages_received
    }

    /// The list of states to publish holds this one, if there is a stream to hear of it.
    pub open spec fn publishes(self, states: Seq<ConsumerState>) -> bool {
        if self.streams.len() == 0 {
            states.len() == 0
        } else {
            states.len() == 1 && self.describes(states[0])
        }
    }
}

/// What happened to the multi-topic consumer while it looks for the next message.
pub enum MultiEvent<T: DeserializeMessage, Io> {
    /// It is polled.
    Woken,
    /// An attempt to get the consumers that are being created.
    Creation(Poll<Result<Vec<Consumer<T, Io>>, Error>>),
    /// An attempt to get the next tick of the refresh timer.
    Refresh(Poll<Option<()>>),
    /// Something happened to the consumer that is being polled.
    Consumer(PollEvent),
}

/// What the multi-topic consumer wants done.
pub enum MultiAction<T> {
    /// Try to get the consumers that are being created.
    PollCreation,
    /// Try to get the next tick of the refresh timer.
    PollRefresh,
    /// Begin to create consumers, in place of those that are being created, and wake it again.
    StartCreation(Refresh),
    /// Do what the consumer that is being polled wants.
    Consumer(PollAction<T>),
    /// Return this from the poll.
    Return(Polled<T>),
}

/// A topic whose consumer failed, with its error, or none where its messages ended.
#[derive(Debug)]
pub struct TopicFailure {
    pub topic: String,
    pub error: Option<Error>,
}

/// The answer of the multi-topic consumer: the topic that failed, if one did, states for its
/// streams, and what it wants done then.
pub struct Reaction<T> {
    pub failure: Option<TopicFailure>,
    pub publish: Vec<ConsumerState>,
    pub action: MultiAction<T>,
}

/// What happens when a round is over. The topics that failed are dropped; a message that was found
/// is counted and delivered. The streams hear of each of the two changes.
pub open spec fn round_over<T, Io, S>(
    before: MultiView<Io, S>,
    failed: Seq<Seq<char>>,
    message: Option<MessageView>,
    after: MultiView<Io, S>,
    reaction: Reaction<T>,
) -> bool {
    let cleaned = before.removed(failed);
    match message {
        Some(message) => {
            &&& after.last_message_received is Some
            &&& crate::time::utc_showed(after.last_message_received->0)
            &&& after == cleaned.recorded(after.last_message_received->0)
            &&& if cleaned.streams.len() == 0 {
                reaction.publish@.len() == 0
            } else {
                &&& reaction.publish@.len() == 2
                &&& cleaned.describes(reaction.publish@[0])
                &&& after.describes(reaction.publish@[1])
            }
            &&& reaction.action matches MultiAction::Return(polled) && crate::consumer::is_message(
                polled,
                message,
            )
        },
        None => {
            &&& after == cleaned
            &&& cleaned.publishes(reaction.publish@)
            &&& reaction.action == MultiAction::<T>::Return(Poll::Pending)
        },
    }
}

/// What happens when the next topic gets its turn, with `left` turns to come.
pub open spec fn next_turn<T, Io, S>(
    before: MultiView<Io, S>,
    left: nat,
    failed: Seq<Seq<char>>,
    after: MultiView<Io, S>,
    reaction: Reaction<T>,
) -> bool {
    if left == 0 {
        round_over(before, failed, None, after, reaction)
    } else {
        let turned = before.turned(left, failed);
        match before.consumers[before.queue[0]].consumer.current_message() {
            Some(message) => round_over(turned.requeued(), failed, Some(message), after, reaction),
            None => {
                &&& after == turned
                &&& reaction.publish@.len() == 0
                &&& reaction.action == MultiAction::Consumer(PollAction::<T>::CheckConnection)
            },
        }
    }
}

/// What is told of a topic whose consumer was polled with the given outcome.
pub open spec fn tells_failure<T>(
    failure: Option<TopicFailure>,
    topic: Seq<char>,
    polled: Polled<T>,
) -> bool {
    match polled {
        Poll::Ready(None) => failure matches Some(f) && f.topic@ == topic && f.error is None,
        Poll::Ready(Some(Err(e))) => failure matches Some(f) && f.topic@ == topic && f.error
            == Some(e),
        _ => failure is None,
    }
}

/// What happens when the consumer that is being polled took a step. A message ends the round;
/// an error or the end of its messages drops the topic when the round is over.
pub open spec fn after_consumer_step<T, Io, S>(
    before: MultiView<Io, S>,
    consumer: ConsumerView,
    step: PollAction<T>,
    after: MultiView<Io, S>,
    reaction: Reaction<T>,
) -> bool {
    let round = before.round->0;
    let stepped = before.stepped(consumer);
    &&& match step {
        PollAction::Return(polled) => tells_failure(reaction.failure, round.topic, polled),
        _ => reaction.failure is None,
    }
    &&& match step {
        PollAction::Return(Poll::Ready(Some(Ok(message)))) => round_over(
            stepped.requeued(),
            round.failed,
            Some(message@),
            after,
            reaction,
        ),
        PollAction::Return(Poll::Pending) => next_turn(
            stepped.requeued(),
            round.left,
            round.failed,
            after,
            reaction,
        ),
        PollAction::Return(_) => next_turn(
            stepped.requeued(),
            round.left,
            round.failed.push(round.topic),
            after,
            reaction,
        ),
        _ => {
            &&& after == stepped
            &&& reaction.publish@.len() == 0
            &&& reaction.action == MultiAction::Consumer(step)
        },
    }
}

/// What one step of a multi-topic consumer does to it, and what it answers.
pub open spec fn multi_step<
    T: DeserializeMessage,
    Io,
    S,
    P: Fn(u32, &Vec<u8>) -> Result<Vec<BatchedMessage>, ConnectionError>,
>(
    before: MultiView<Io, S>,
    event: MultiEvent<T, Io>,
    parse: &P,
    after: MultiView<Io, S>,
    reaction: Reaction<T>,
) -> bool {
    &&& !(event is Consumer) ==> reaction.failure is None
    &&& match event {
        MultiEvent::Woken => {
            &&& after == before
            &&& reaction.publish@.len() == 0
            &&& reaction.action == (if before.creating {
                MultiAction::<T>::PollCreation
            } else {
                MultiAction::<T>::PollRefresh
            })
        },
        MultiEvent::Creation(Poll::Ready(Ok(consumers))) => {
            &&& after == (MultiView { creating: false, ..before.added(members(consumers@)) })
            &&& after.publishes(reaction.publish@)
            &&& reaction.action == MultiAction::<T>::PollRefresh
        },
        MultiEvent::Creation(Poll::Ready(Err(_))) => {
            &&& after == (MultiView { creating: false, ..before })
            &&& reaction.publish@.len() == 0
            &&& reaction.action == MultiAction::<T>::PollRefresh
        },
        MultiEvent::Creation(Poll::Pending) => {
            &&& after == before
            &&& reaction.publish@.len() == 0
            &&& reaction.action == MultiAction::<T>::PollRefresh
        },
        MultiEvent::Refresh(Poll::Ready(Some(_))) => {
            &&& after == (MultiView { creating: true, ..before })
            &&& reaction.publish@.len() == 0
            &&& reaction.action matches MultiAction::StartCreation(refresh) && refresh@
                == before.refresh()
        },
        MultiEvent::Refresh(_) => next_turn(before, before.queue.len(), seq![], after, reaction),
        MultiEvent::Consumer(event) => exists|consumer: ConsumerView, step: PollAction<T>|
            {
                &&& #[trigger] crate::consumer::poll_step(
                    before.polled_member().consumer,
                    event,
                    parse,
                    consumer,
                    step,
                )
                &&& after_consumer_step(before, consumer, step, after, reaction)
            },
    }
}

/// An event that can happen to the multi-topic consumer now. While a consumer is being polled
/// nothing else happens, and no frame comes for it that the broker was not permitted to send.
pub open spec fn can_happen<T: DeserializeMessage, Io, S>(
    view: MultiView<Io, S>,
    event: MultiEvent<T, Io>,
) -> bool {
    &&& event is Consumer <==> view.round is Some
    &&& match event {
        MultiEvent::Woken => true,
        MultiEvent::Creation(polled) => {
            &&& view.creating
            &&& polled matches Poll::Ready(Ok(consumers)) ==> forall|i: int|
                0 <= i < consumers@.len() ==> (#[trigger] consumers@[i])@.wf()
        },
        MultiEvent::Refresh(_) => view.messages_received < u64::MAX,
        MultiEvent::Consumer(event) => {
            &&& view.messages_received < u64::MAX
            &&& event matches PollEvent::Received(Poll::Ready(Some(_)))
                ==> view.polled_member().consumer.remaining_messages > 0
        },
    }
}

impl<T: DeserializeMessage, Io, S> View for MultiTopicConsumer<T, Io, S> {
    type V = MultiView<Io, S>;

    closed spec fn view(&self) -> MultiView<Io, S> {
        MultiView {
            namespace: self.namespace@,
            pattern: self.topic_regex,
            delay: self.unacked_message_resend_delay,
            consumers: self.consumers@.map_values(|c: Consumer<T, Io>| member(c)),
            queue: crate::text_list::texts(self.topics@),
            creating: self.creating,
            topic_refresh: self.topic_refresh,
            subscription: self.subscription@,
            sub_type: self.sub_type,
            options: self.options@,
            last_message_received: self.last_message_received,
            messages_received: self.messages_received,
            streams: self.state_streams@,
            round: match self.round {
                Some(round) => Some(
                    RoundView {
                        topic: round.topic@,
                        left: round.left as nat,
                        failed: crate::text_list::texts(round.failed@),
                    },
                ),
                None => None,
            },
        }
    }
}

/// What is left of a list after its elements at the places marked `false` were dropped.
pub open spec fn kept<S>(list: Seq<S>, marks: Seq<bool>) -> Seq<S>
    recommends
        list.len() == marks.len(),
    decreases list.len(),
{
    if list.len() == 0 {
        list
    } else if marks.last() {
        kept(list.drop_last(), marks.drop_last()).push(list.last())
    } else {
        kept(list.drop_last(), marks.drop_last())
    }
}

impl<T: DeserializeMessage, Io, S> MultiTopicConsumer<T, Io, S> {
    /// What every operation keeps: exactly the topics that have a consumer are visited.
    pub closed spec fn wf(&self) -> bool {
        self.consumers.wf() && self@.wf()
    }

    /// A consumer without topics yet.
    pub fn new<S1: Into<String>, S2: Into<String>>(
        namespace: S1,
        topic_regex: regex::Regex,
        subscription: S2,
        sub_type: SubType,
        topic_refresh: Duration,
        unacked_message_resend_delay: Option<Duration>,
        options: ConsumerOptions,
    ) -> (r: Self)
        ensures
            r.wf(),
            exists|n: String, s: String|
                {
                    &&& #[trigger] call_ensures(S1::into, (namespace,), n)
                    &&& #[trigger] call_ensures(S2::into, (subscription,), s)
                    &&& r@ == (MultiView::<Io, S> {
                        namespace: n@,
                        pattern: topic_regex,
                        delay: unacked_message_resend_delay,
                        consumers: Map::empty(),
                        queue: seq![],
                        creating: false,
                        topic_refresh,
                        subscription: s@,
                        sub_type,
                        options: options@,
                        last_message_received: None,
                        messages_received: 0,
                        streams: seq![],
                        round: None,
                    })
                },
    {
        let n: String = namespace.into();
        let s: String = subscription.into();
        let r: MultiTopicConsumer<T, Io, S> = MultiTopicConsumer {
            namespace: n,
            topic_regex,
            unacked_message_resend_delay,
            consumers: ConsumerSet::new(),
            topics: VecDeque::new(),
            creating: false,
            topic_refresh,
            subscription: s,
            sub_type,
            options,
            last_message_received: None,
            messages_received: 0,
            state_streams: Vec::new(),
            round: None,
        };
        assert(r@.queue =~= seq![]);
        assert(r@.consumers =~= Map::empty());
        r
    }

    /// How often the topics of the namespace are to be fetched.
    pub fn topic_refresh(&self) -> (r: Duration)
        ensures
            r == self@.topic_refresh,
    {
        self.topic_refresh
    }

    pub fn namespace(&self) -> (r: &str)
        ensures
            r@ == self@.namespace,
    {
        self.namespace.as_str()
    }

    pub fn topic_regex(&self) -> (r: &regex::Regex)
        ensures
            *r == self@.pattern,
    {
        &self.topic_regex
    }

    /// How many messages were received.
    pub fn messages_received(&self) -> (r: u64)
        ensures
            r == self@.messages_received,
    {
        self.messages_received
    }

    /// Adds a stream that wants to hear of changes.
    pub fn start_state_stream(&mut self, stream: S)
        requires
            old(self).wf(),
        ensures
            final(self).wf(),
            final(self)@ == (MultiView { streams: old(self)@.streams.push(stream), ..old(self)@ }),
    {
        self.state_streams.push(stream);
    }

    /// The streams that want to hear of changes.
    pub fn state_streams(&self) -> (r: &Vec<S>)
        ensures
            r@ == self@.streams,
    {
        &self.state_streams
    }

    /// Drops the streams that are gone, those at the places marked `false`.
    pub fn retain_streams(&mut self, alive: &Vec<bool>)
        requires
            old(self).wf(),
            alive@.len() == old(self)@.streams.len(),
        ensures
            final(self).wf(),
            final(self)@ == (MultiView {
                streams: kept(old(self)@.streams, alive@),
                ..old(self)@
            }),
    {
        let ghost all = self.state_streams@;
        let ghost before = *self;
        let mut i: usize = 0;
        let mut j: usize = 0;
        while j < alive.len()
            invariant
                i <= j <= alive@.len(),
                all.len() == alive@.len(),
                i == kept(all.take(j as int), alive@.take(j as int)).len(),
                self.state_streams@ == kept(all.take(j as int), alive@.take(j as int)) + all.skip(
                    j as int,
                ),
                self@ == (MultiView { streams: self@.streams, ..before@ }),
                self.consumers == before.consumers,
            decreases alive@.len() - j,
        {
            let ghost now = self.state_streams@;
            proof {
                assert(all.take(j + 1).drop_last() =~= all.take(j as int));
                assert(alive@.take(j + 1).drop_last() =~= alive@.take(j as int));
                assert(all.take(j + 1).last() == all[j as int]);
                assert(now[i as int] == all[j as int]);
            }
            if alive[j] {
                i = i + 1;
            } else {
                let _ = self.state_streams.remove(i);
            }
            j = j + 1;
            assert(self.state_streams@ =~= kept(all.take(j as int), alive@.take(j as int))
                + all.skip(j as int));
        }
        proof {
            assert(all.take(j as int) =~= all);
            assert(alive@.take(j as int) =~= alive@);
            assert(self.state_streams@ =~= kept(all, alive@));
        }
    }

    /// The state to publish, if there is a stream to hear of it.
    pub fn send_state(&self) -> (r: Vec<ConsumerState>)
        requires
            self.wf(),
        ensures
            self@.publishes(r@),
    {
        let mut r: Vec<ConsumerState> = Vec::new();
        if self.state_streams.len() > 0 {
            let state = ConsumerState {
                connected_topics: self.consumers.topics(),
                last_message_received: self.last_message_received,
                messages_received: self.messages_received,
            };
            assert(self@.describes(state)) by {
                assert forall|topic: Seq<char>| #[trigger]
                    crate::text_list::texts(state.connected_topics@).contains(topic)
                        <==> self@.consumers.contains_key(topic) by {
                    assert(self@.consumers.contains_key(topic)
                        == self.consumers@.contains_key(topic));
                }
            }
            r.push(state);
        }
        r
    }

    /// Counts a message that was received at `now`. The answer is the state to publish.
    pub fn record_message_at(&mut self, now: Timestamp) -> (r: Vec<ConsumerState>)
        requires
            old(self).wf(),
            old(self)@.messages_received < u64::MAX,
        ensures
            final(self).wf(),
            final(self)@ == old(self)@.recorded(now),
            final(self)@.publishes(r@),
    {
        self.last_message_received = Some(now);
        self.messages_received = self.messages_received + 1;
        self.send_state()
    }

    /// Counts a message that is received now.
    pub fn record_message(&mut self) -> (r: Vec<ConsumerState>)
        requires
            old(self).wf(),
            old(self)@.messages_received < u64::MAX,
        ensures
            final(self).wf(),
            final(self)@.last_message_received is Some,
            crate::time::utc_showed(final(self)@.last_message_received->0),
            final(self)@ == old(self)@.recorded(final(self)@.last_message_received->0),
            final(self)@.publishes(r@),
    {
        let now = wall_clock();
        self.record_message_at(now)
    }

    /// Adds consumers. The answer is the state to publish.
    pub fn add_consumers(&mut self, consumers: Vec<Consumer<T, Io>>) -> (r: Vec<ConsumerState>)
        requires
            old(self).wf(),
            old(self)@.round is None,
            forall|i: int| 0 <= i < consumers@.len() ==> (#[trigger] consumers@[i])@.wf(),
        ensures
            final(self).wf(),
            final(self)@ == old(self)@.added(members(consumers@)),
            final(self)@.publishes(r@),
    {
        let ghost before = self@;
        let ghost all = members(consumers@);
        let ghost list = consumers@;
        for consumer in it: consumers
            invariant
                self.wf(),
                before.round is None,
                it.seq() == list,
                all == members(list),
                self@ == before.added(all.take(it.index() as int)),
                forall|i: int| 0 <= i < list.len() ==> (#[trigger] list[i])@.wf(),
        {
            let ghost done = it.index() as int;
            let ghost was = self@;
            let topic: String = consumer.topic().to_owned();
            assert(consumer == list[done]);
            self.consumers.insert(consumer);
            self.topics.push_back(topic);
            proof {
                let new = member(consumer);
                assert(all[done] == new);
                assert(all.take(done + 1).drop_last() =~= all.take(done));
                assert(self@.queue =~= was.queue.push(new.consumer.topic));
                assert(self@.consumers =~= was.consumers.insert(new.consumer.topic, new));
                assert(self@ =~= was.with_member(new));
                lemma_with_member(was, new);
            }
        }
        assert(all.take(all.len() as int) =~= all);
        self.send_state()
    }

    /// Drops the consumers of some topics. The answer is the state to publish.
    pub fn remove_consumers(&mut self, topics: &Vec<String>) -> (r: Vec<ConsumerState>)
        requires
            old(self).wf(),
            old(self)@.round is None,
        ensures
            final(self).wf(),
            final(self)@ == old(self)@.removed(crate::text_list::texts(topics@)),
            final(self)@.publishes(r@),
    {
        let ghost before = *self;
        let ghost gone = crate::text_list::texts(topics@);
        let ghost pred = |topic: Seq<char>| !gone.contains(topic);
        let mut queue: VecDeque<String> = VecDeque::new();
        let mut i: usize = 0;
        proof {
            assert(before@.queue.take(0).filter(pred) =~= seq![]) by {
                reveal(Seq::filter);
            }
        }
        while i < self.topics.len()
            invariant
                i <= self.topics@.len(),
                *self == before,
                gone == crate::text_list::texts(topics@),
                pred == (|topic: Seq<char>| !gone.contains(topic)),
                crate::text_list::texts(queue@) == before@.queue.take(i as int).filter(pred),
            decreases self.topics@.len() - i,
        {
            proof {
                assert(before@.queue.take(i + 1) =~= before@.queue.take(i as int).push(
                    before@.queue[i as int],
                ));
                crate::text_list::lemma_filter_push(
                    before@.queue.take(i as int),
                    before@.queue[i as int],
                    pred,
                );
            }
            if !holds_text(topics, &self.topics[i]) {
                let ghost was = queue@;
                queue.push_back(self.topics[i].clone());
                assert(crate::text_list::texts(queue@) =~= crate::text_list::texts(was).push(
                    before@.queue[i as int],
                ));
            }
            i = i + 1;
        }
        assert(before@.queue.take(i as int) =~= before@.queue);
        self.topics = queue;
        let mut k: usize = 0;
        assert(gone.take(0).to_set() =~= Set::empty());
        assert(before.consumers@.remove_keys(gone.take(0).to_set()) =~= before.consumers@);
        while k < topics.len()
            invariant
                k <= topics@.len(),
                gone == crate::text_list::texts(topics@),
                self.consumers.wf(),
                self.consumers@ == before.consumers@.remove_keys(gone.take(k as int).to_set()),
                self@ == (MultiView {
                    consumers: self@.consumers,
                    queue: before@.queue.filter(pred),
                    ..before@
                }),
            decreases topics@.len() - k,
        {
            let ghost was = self.consumers@;
            self.consumers.remove(topics[k].as_str());
            proof {
                assert(gone.take(k + 1) =~= gone.take(k as int).push(gone[k as int]));
                assert(gone.take(k + 1).to_set() =~= gone.take(k as int).to_set().insert(
                    gone[k as int],
                )) by {
                    crate::text_list::lemma_to_set_push(gone.take(k as int), gone[k as int]);
                }
                assert(self.consumers@ =~= before.consumers@.remove_keys(
                    gone.take(k + 1).to_set(),
                ));
            }
            k = k + 1;
        }
        proof {
            assert(gone.take(k as int) =~= gone);
            assert(self@.consumers =~= before@.consumers.remove_keys(gone.to_set()));
            assert(self@ =~= before@.removed(gone));
            lemma_removed(before@, gone);
        }
        self.send_state()
    }

    /// The consumer of a topic.
    pub fn consumer(&self, topic: &str) -> (r: Option<&Consumer<T, Io>>)
        requires
            self.wf(),
        ensures
            match r {
                Some(consumer) => self@.consumers.contains_key(topic@) && member(*consumer)
                    == self@.consumers[topic@],
                None => !self@.consumers.contains_key(topic@),
            },
    {
        assert(self@.consumers.contains_key(topic@) == self.consumers@.contains_key(topic@));
        self.consumers.get(topic)
    }

    /// The command that acknowledges one message, as the consumer of its topic gives it. Without
    /// such a consumer there is none.
    pub fn ack(&self, msg: &Message<T>) -> (r: Result<AckRequest, ConnectionError>)
        requires
            self.wf(),
        ensures
            match r {
                Ok(ack) => {
                    &&& self@.consumers.contains_key(msg.topic@)
                    &&& ack.consumer_id == self@.consumers[msg.topic@].consumer.id
                    &&& ack.message_ids@ == seq![msg.message_id.id]
                    &&& !ack.cumulative
                },
                Err(e) => {
                    &&& !self@.consumers.contains_key(msg.topic@)
                    &&& e matches ConnectionError::Unexpected(text)
                    &&& text@ == "no consumer for topic "@ + msg.topic@
                },
            },
    {
        match self.consumer(msg.topic.as_str()) {
            Some(c) => Ok(c.ack(msg)),
            None => {
                let text: String = "no consumer for topic ".to_owned();
                Err(ConnectionError::Unexpected(text.concat(msg.topic.as_str())))
            },
        }
    }

    /// The consumer that is being polled.
    pub fn polled_consumer(&self) -> (r: Option<&Consumer<T, Io>>)
        requires
            self.wf(),
        ensures
            match r {
                Some(consumer) => self@.round is Some && member(*consumer)
                    == self@.polled_member(),
                None => self@.round is None,
            },
    {
        match &self.round {
            Some(round) => {
                assert(self@.visits(round.topic@));
                self.consumer(round.topic.as_str())
            },
            None => None,
        }
    }

    /// A look for new topics, as of now.
    pub fn refresh(&self) -> (r: Refresh)
        requires
            self.wf(),
        ensures
            r@ == self@.refresh(),
    {
        let existing_topics = self.consumers.topics();
        proof {
            let names = crate::text_list::texts(existing_topics@);
            assert forall|topic: Seq<char>| #[trigger]
                names.to_set().contains(topic) <==> self@.consumers.dom().contains(topic) by {
                assert(names.contains(topic) <==> self.consumers@.contains_key(topic));
            }
            assert(names.to_set() =~= self@.consumers.dom());
        }
        Refresh::new(
            self.namespace.clone(),
            existing_topics,
            self.topic_regex.clone(),
            self.subscription.clone(),
            self.sub_type,
            self.unacked_message_resend_delay,
            self.options.clone(),
        )
    }

    /// Ends a round.
    fn end_round(&mut self, failed: Vec<String>, result: Option<Message<T>>) -> (r: Reaction<T>)
        requires
            old(self).wf(),
            old(self)@.round is None,
            old(self)@.messages_received < u64::MAX,
        ensures
            final(self).wf(),
            round_over(
                old(self)@,
                crate::text_list::texts(failed@),
                match result {
                    Some(message) => Some(message@),
                    None => None,
                },
                final(self)@,
                r,
            ),
            r.failure is None,
    {
        let mut publish = self.remove_consumers(&failed);
        match result {
            Some(message) => {
                let mut recorded = self.record_message();
                publish.append(&mut recorded);
                Reaction { failure: None, publish, action: MultiAction::Return(Poll::Ready(Some(Ok(message)))) }
            },
            None => Reaction { failure: None, publish, action: MultiAction::Return(Poll::Pending) },
        }
    }

    /// Gives the next topic its turn, or ends the round if no turn is left.
    fn next_turn(&mut self, left: usize, failed: Vec<String>) -> (r: Reaction<T>)
        requires
            old(self).wf(),
            old(self)@.round is None,
            left <= old(self)@.queue.len(),
            old(self)@.messages_received < u64::MAX,
        ensures
            final(self).wf(),
            next_turn(
                old(self)@,
                left as nat,
                crate::text_list::texts(failed@),
                final(self)@,
                r,
            ),
            r.failure is None,
    {
        if left == 0 {
            return self.end_round(failed, None);
        }
        let ghost before = *self;
        let ghost names = crate::text_list::texts(failed@);
        let popped = self.topics.pop_front();
        match popped {
            Some(topic) => {
                proof {
                    assert(before@.queue[0] == topic@);
                    assert(before@.visits(topic@));
                    assert(before@.consumers.contains_key(topic@));
                    assert(self.consumers@.contains_key(topic@));
                    assert(before@.consumers[topic@].consumer == self.consumers@[topic@]@);
                }
                let polled = self.consumers.get_mut(topic.as_str()).poll_current_message();
                let ghost turned = before@.turned(left as nat, names);
                proof {
                    assert(crate::text_list::texts(self.topics@) =~= before@.queue.drop_first());
                    assert(self@.consumers =~= turned.consumers);
                    lemma_turned(before@, left as nat, names);
                }
                match polled {
                    Poll::Ready(message) => {
                        self.topics.push_back(topic);
                        proof {
                            assert(self@.queue =~= turned.requeued().queue);
                            assert(self@ =~= turned.requeued());
                            lemma_requeued(turned);
                        }
                        self.end_round(failed, Some(message))
                    },
                    Poll::Pending => {
                        self.round = Some(Round { topic, left: left - 1, failed });
                        assert(self@ =~= turned);
                        Reaction {
                            failure: None,
                            publish: Vec::new(),
                            action: MultiAction::Consumer(PollAction::CheckConnection),
                        }
                    },
                }
            },
            None => {
                assert(false);
                self.end_round(failed, None)
            },
        }
    }

    /// What the consumer that is being polled carries, to be changed.
    pub fn polled_io(&mut self) -> (r: &mut Io)
        requires
            old(self).wf(),
            old(self)@.round is Some,
        ensures
            *r == old(self)@.polled_member().io,
            final(self).wf(),
            final(self)@ == (MultiView {
                consumers: old(self)@.consumers.insert(
                    old(self)@.round->0.topic,
                    Member { io: *final(r), ..old(self)@.polled_member() },
                ),
                ..old(self)@
            }),
    {
        let ghost before = *self;
        let topic: String = match &self.round {
            Some(round) => round.topic.clone(),
            None => String::new(),
        };
        proof {
            assert(before@.visits(topic@));
            assert(before@.consumers.contains_key(topic@));
            assert(self.consumers@.contains_key(topic@));
            assert forall|c: Consumer<T, Io>| c@ == before.consumers@[topic@]@ implies (
            #[trigger] before.consumers@.insert(topic@, c)).map_values(
                |c: Consumer<T, Io>| member(c),
            ) =~= before@.consumers.insert(
                topic@,
                Member { io: c.carried(), ..before@.polled_member() },
            ) by {}
            assert forall|io: Io| #[trigger]
                replaced_io(before@, io).wf() by {
                lemma_replaced_io(before@, io);
            }
        }
        self.consumers.get_mut(topic.as_str()).io_mut()
    }

    /// Takes note of what happened to the consumer that is being polled.
    fn consumer_step<P: Fn(u32, &Vec<u8>) -> Result<Vec<BatchedMessage>, ConnectionError>>(
        &mut self,
        event: PollEvent,
        parse: &P,
    ) -> (r: Reaction<T>)
        requires
            old(self).wf(),
            old(self)@.round is Some,
            old(self)@.messages_received < u64::MAX,
            event matches PollEvent::Received(Poll::Ready(Some(_))) ==> old(
                self,
            )@.polled_member().consumer.remaining_messages > 0,
            forall|count: u32, data: &Vec<u8>| #[trigger] call_requires(parse, (count, data)),
        ensures
            final(self).wf(),
            multi_step(old(self)@, MultiEvent::<T, Io>::Consumer(event), parse, final(self)@, r),
    {
        let ghost before = *self;
        let taken = self.round.take();
        match taken {
            Some(round) => {
                let Round { topic, left, failed } = round;
                let ghost ev = event;
                let ghost was = self.consumers@[topic@];
                proof {
                    assert(before@.visits(topic@));
                    assert(before@.consumers.contains_key(topic@));
                    assert(self.consumers@.contains_key(topic@));
                    assert(before@.polled_member().consumer == was@);
                    assert forall|after: ConsumerView, step: PollAction<T>| #[trigger]
                        crate::consumer::poll_step(was@, ev, parse, after, step) implies after.topic
                        == was@.topic by {
                        crate::consumer::permits_are_conserved(was@, ev, parse, after, step);
                    }
                }
                let step = self.consumers.get_mut(topic.as_str()).poll_next(event, parse);
                let ghost now = self.consumers@[topic@]@;
                let ghost stepped = before@.stepped(now);
                proof {
                    assert(crate::consumer::poll_step(was@, ev, parse, now, step));
                    assert(self@.consumers =~= stepped.consumers);
                    lemma_stepped(before@, now);
                    lemma_requeued(stepped);
                }
                match step {
                    PollAction::Return(polled) => {
                        let mut failed = failed;
                        match polled {
                            Poll::Ready(Some(Ok(message))) => {
                                self.topics.push_back(topic);
                                proof {
                                    assert(self@.queue =~= stepped.requeued().queue);
                                    assert(self@ =~= stepped.requeued());
                                }
                                self.end_round(failed, Some(message))
                            },
                            Poll::Pending => {
                                self.topics.push_back(topic);
                                proof {
                                    assert(self@.queue =~= stepped.requeued().queue);
                                    assert(self@ =~= stepped.requeued());
                                }
                                self.next_turn(left, failed)
                            },
                            Poll::Ready(ended) => {
                                let error: Option<Error> = match ended {
                                    Some(Err(e)) => Some(e),
                                    _ => None,
                                };
                                let failure = TopicFailure { topic: topic.clone(), error };
                                let ghost names = crate::text_list::texts(failed@);
                                failed.push(topic.clone());
                                self.topics.push_back(topic);
                                proof {
                                    assert(crate::text_list::texts(failed@) =~= names.push(topic@));
                                    assert(self@.queue =~= stepped.requeued().queue);
                                    assert(self@ =~= stepped.requeued());
                                }
                                let reaction = self.next_turn(left, failed);
                                Reaction { failure: Some(failure), ..reaction }
                            },
                        }
                    },
                    action => {
                        self.round = Some(Round { topic, left, failed });
                        assert(self@ =~= stepped);
                        Reaction { failure: None, publish: Vec::new(), action: MultiAction::Consumer(action) }
                    },
                }
            },
            None => {
                assert(false);
                Reaction { failure: None, publish: Vec::new(), action: MultiAction::PollRefresh }
            },
        }
    }

    /// One step towards the next message: takes note of what happened and says what to do next.
    /// The answer `Return` ends the poll; any other is followed by the next step. `parse` takes
    /// the content of a batch apart, given the number of messages that it is to hold.
    pub fn poll_next<P: Fn(u32, &Vec<u8>) -> Result<Vec<BatchedMessage>, ConnectionError>>(
        &mut self,
        event: MultiEvent<T, Io>,
        parse: &P,
    ) -> (r: Reaction<T>)
        requires
            old(self).wf(),
            can_happen(old(self)@, event),
            forall|count: u32, data: &Vec<u8>| #[trigger] call_requires(parse, (count, data)),
        ensures
            final(self).wf(),
            multi_step(old(self)@, event, parse, final(self)@, r),
    {
        match event {
            MultiEvent::Woken => Reaction {
                failure: None,
                publish: Vec::new(),
                action: if self.creating {
                    MultiAction::PollCreation
                } else {
                    MultiAction::PollRefresh
                },
            },
            MultiEvent::Creation(polled) => {
                let mut publish: Vec<ConsumerState> = Vec::new();
                match polled {
                    Poll::Ready(Ok(consumers)) => {
                        proof {
                            lemma_added_keeps(self@, members(consumers@));
                        }
                        publish = self.add_consumers(consumers);
                        self.creating = false;
                    },
                    Poll::Ready(Err(_)) => {
                        self.creating = false;
                    },
                    Poll::Pending => {},
                }
                Reaction { failure: None, publish, action: MultiAction::PollRefresh }
            },
            MultiEvent::Refresh(Poll::Ready(Some(_))) => {
                let refresh = self.refresh();
                self.creating = true;
                Reaction { failure: None, publish: Vec::new(), action: MultiAction::StartCreation(refresh) }
            },
            MultiEvent::Refresh(_) => {
                let left: usize = self.topics.len();
                let failed: Vec<String> = Vec::new();
                assert(crate::text_list::texts(failed@) =~= seq![]);
                self.next_turn(left, failed)
            },
            MultiEvent::Consumer(event) => self.consumer_step(event, parse),
        }
    }
}

/// In every multi-topic consumer exactly the topics that have a consumer are visited, each consumer
/// is kept under its own topic, and no round has more turns to come than topics wait.
pub proof fn visited_topics_have_consumers<T: DeserializeMessage, Io, S>(
    consumer: MultiTopicConsumer<T, Io, S>,
)
    requires
        consumer.wf(),
    ensures
        consumer@.wf(),
{
}

/// Creating consumers changes nothing but the consumers and the queue.
pub(crate) proof fn lemma_added_keeps<Io, S>(view: MultiView<Io, S>, new: Seq<Member<Io>>)
    ensures
        view.added(new) == (MultiView {
            consumers: view.added(new).consumers,
            queue: view.added(new).queue,
            ..view
        }),
    decreases new.len(),
{
    if new.len() > 0 {
        lemma_added_keeps(view, new.drop_last());
    }
}

spec fn replaced_io<Io, S>(view: MultiView<Io, S>, io: Io) -> MultiView<Io, S> {
    MultiView {
        consumers: view.consumers.insert(
            view.round->0.topic,
            Member { io, ..view.polled_member() },
        ),
        ..view
    }
}

proof fn lemma_replaced_io<Io, S>(view: MultiView<Io, S>, io: Io)
    requires
        view.wf(),
        view.round is Some,
    ensures
        replaced_io(view, io).wf(),
{
    let after = replaced_io(view, io);
    assert(view.visits(view.round->0.topic));
    assert forall|topic: Seq<char>| #[trigger]
        after.consumers.contains_key(topic) <==> after.visits(topic) by {
        assert(view.consumers.contains_key(topic) <==> view.visits(topic));
    }
    assert forall|topic: Seq<char>| #[trigger] after.consumers.contains_key(topic) implies
        after.consumers[topic].consumer.topic == topic && after.consumers[topic].consumer.wf() by {
        assert(view.consumers.contains_key(topic));
    }
}

pub(crate) proof fn lemma_stepped<Io, S>(view: MultiView<Io, S>, consumer: ConsumerView)
    requires
        view.wf(),
        view.round is Some,
        consumer.wf(),
        consumer.topic == view.round->0.topic,
    ensures
        view.stepped(consumer).wf(),
{
    let after = view.stepped(consumer);
    assert(view.visits(view.round->0.topic));
    assert forall|topic: Seq<char>| #[trigger]
        after.consumers.contains_key(topic) <==> after.visits(topic) by {
        assert(view.consumers.contains_key(topic) <==> view.visits(topic));
    }
    assert forall|topic: Seq<char>| #[trigger] after.consumers.contains_key(topic) implies
        after.consumers[topic].consumer.topic == topic && after.consumers[topic].consumer.wf() by {
        assert(view.consumers.contains_key(topic));
    }
}

pub(crate) proof fn lemma_turned<Io, S>(view: MultiView<Io, S>, left: nat, failed: Seq<Seq<char>>)
    requires
        view.wf(),
        view.round is None,
        0 < left <= view.queue.len(),
    ensures
        view.turned(left, failed).wf(),
{
    let after = view.turned(left, failed);
    let front = view.queue[0];
    assert(view.visits(front));
    assert forall|topic: Seq<char>| #[trigger]
        after.consumers.contains_key(topic) <==> after.visits(topic) by {
        assert(view.consumers.contains_key(topic) <==> view.visits(topic));
        if view.queue.contains(topic) && topic != front {
            let i = choose|i: int| 0 <= i < view.queue.len() && view.queue[i] == topic;
            assert(after.queue[i - 1] == topic);
        }
        if after.queue.contains(topic) {
            let i = choose|i: int| 0 <= i < after.queue.len() && after.queue[i] == topic;
            assert(view.queue[i + 1] == topic);
        }
    }
    assert forall|topic: Seq<char>| #[trigger] after.consumers.contains_key(topic) implies
        after.consumers[topic].consumer.topic == topic && after.consumers[topic].consumer.wf() by {
        assert(view.consumers.contains_key(topic));
    }
}

pub(crate) proof fn lemma_requeued<Io, S>(view: MultiView<Io, S>)
    requires
        view.wf(),
        view.round is Some,
    ensures
        view.requeued().wf(),
{
    let after = view.requeued();
    assert forall|topic: Seq<char>| #[trigger]
        after.consumers.contains_key(topic) <==> after.visits(topic) by {
        assert(view.consumers.contains_key(topic) <==> view.visits(topic));
        crate::text_list::lemma_to_set_push(view.queue, view.round->0.topic);
        assert(after.queue.to_set().contains(topic) <==> view.queue.to_set().insert(
            view.round->0.topic,
        ).contains(topic));
    }
    assert forall|topic: Seq<char>| #[trigger] after.consumers.contains_key(topic) implies
        after.consumers[topic].consumer.topic == topic && after.consumers[topic].consumer.wf() by {
        assert(view.consumers.contains_key(topic));
    }
}

pub(crate) proof fn lemma_removed<Io, S>(view: MultiView<Io, S>, topics: Seq<Seq<char>>)
    requires
        view.wf(),
        view.round is None,
    ensures
        view.removed(topics).wf(),
{
    let after = view.removed(topics);
    let pred = |topic: Seq<char>| !topics.contains(topic);
    assert forall|topic: Seq<char>| #[trigger]
        after.consumers.contains_key(topic) <==> after.visits(topic) by {
        assert(view.consumers.contains_key(topic) <==> view.visits(topic));
        crate::text_list::lemma_filter_contains(view.queue, pred, topic);
        assert(topics.to_set().contains(topic) <==> topics.contains(topic));
    }
    assert forall|topic: Seq<char>| #[trigger] after.consumers.contains_key(topic) implies
        after.consumers[topic].consumer.topic == topic && after.consumers[topic].consumer.wf() by {
        assert(view.consumers.contains_key(topic));
    }
}

pub(crate) proof fn lemma_with_member<Io, S>(view: MultiView<Io, S>, new: Member<Io>)
    requires
        view.wf(),
        new.consumer.wf(),
    ensures
        view.with_member(new).wf(),
{
    let after = view.with_member(new);
    assert forall|topic: Seq<char>| #[trigger]
        after.consumers.contains_key(topic) <==> after.visits(topic) by {
        assert(view.consumers.contains_key(topic) <==> view.visits(topic));
        if view.queue.contains(topic) {
            let i = choose|i: int| 0 <= i < view.queue.len() && view.queue[i] == topic;
            assert(after.queue[i] == topic);
        }
        assert(after.queue[view.queue.len() as int] == new.consumer.topic);
    }
    assert forall|topic: Seq<char>| #[trigger] after.consumers.contains_key(topic) implies
        after.consumers[topic].consumer.topic == topic && after.consumers[topic].consumer.wf() by {
        if topic != new.consumer.topic {
            assert(view.consumers.contains_key(topic));
        }
    }
}

} // verus!
