//! What holds of every run of a multi-topic consumer.
use crate::consumer::{ConsumerView, DeserializeMessage, Message, MessageView, PollAction};
use crate::error::{ConnectionError, Error};
use crate::message::BatchedMessage;
use crate::multi::{ConsumerState, Member, MultiAction, MultiEvent, MultiView, Reaction};
use crate::poll::Poll;
use vstd::prelude::*;

verus! {

/// The answer delivers a message.
pub open spec fn delivers<T>(action: MultiAction<T>) -> bool {
    action matches MultiAction::Return(Poll::Ready(Some(Ok(_))))
}

/// A poll brings a message or nothing yet: the failure of one topic never comes out, and the
/// messages never end.
pub proof fn only_messages_come_out<
    T: DeserializeMessage,
    Io,
    S,
    P: Fn(u32, &Vec<u8>) -> Result<Vec<BatchedMessage>, ConnectionError>,
>(
    before: MultiView<Io, S>,
    event: MultiEvent<T, Io>,
    parse: &P,
    after: MultiView<Io, S>,
    reaction: Reaction<T>,
)
    requires
        crate::multi::multi_step(before, event, parse, after, reaction),
        reaction.action is Return,
    ensures
        delivers(reaction.action) || reaction.action == MultiAction::<T>::Return(Poll::Pending),
{
}

proof fn lemma_added_wf<Io, S>(view: MultiView<Io, S>, new: Seq<Member<Io>>)
    requires
        view.wf(),
        forall|i: int| 0 <= i < new.len() ==> (#[trigger] new[i]).consumer.wf(),
    ensures
        view.added(new).wf(),
    decreases new.len(),
{
    if new.len() > 0 {
        let front = new.drop_last();
        assert forall|i: int| 0 <= i < front.len() implies (#[trigger] front[i]).consumer.wf() by {
            assert(new[i] == front[i]);
        }
        lemma_added_wf(view, front);
        assert(new[new.len() - 1].consumer.wf());
        crate::multi::lemma_with_member(view.added(front), new.last());
    }
}

/// What is kept of the topics rests on the consumers, the queue and the round alone.
proof fn lemma_wf_of_topics<Io, S>(a: MultiView<Io, S>, b: MultiView<Io, S>)
    requires
        a.wf(),
        a.consumers == b.consumers,
        a.queue == b.queue,
        a.round == b.round,
    ensures
        b.wf(),
{
    assert forall|topic: Seq<char>| #[trigger] b.consumers.contains_key(topic) <==> b.visits(
        topic,
    ) by {
        assert(a.consumers.contains_key(topic) <==> a.visits(topic));
    }
    assert forall|topic: Seq<char>| #[trigger] b.consumers.contains_key(topic) implies
        b.consumers[topic].consumer.topic == topic && b.consumers[topic].consumer.wf() by {
        assert(a.consumers.contains_key(topic));
    }
}

proof fn lemma_round_over_wf<T, Io, S>(
    before: MultiView<Io, S>,
    failed: Seq<Seq<char>>,
    message: Option<MessageView>,
    after: MultiView<Io, S>,
    reaction: Reaction<T>,
)
    requires
        before.wf(),
        before.round is None,
        crate::multi::round_over(before, failed, message, after, reaction),
    ensures
        after.wf(),
{
    crate::multi::lemma_removed(before, failed);
    lemma_wf_of_topics(before.removed(failed), after);
}

proof fn lemma_next_turn_wf<T, Io, S>(
    before: MultiView<Io, S>,
    left: nat,
    failed: Seq<Seq<char>>,
    after: MultiView<Io, S>,
    reaction: Reaction<T>,
)
    requires
        before.wf(),
        before.round is None,
        left <= before.queue.len(),
        crate::multi::next_turn(before, left, failed, after, reaction),
    ensures
        after.wf(),
{
    if left == 0 {
        lemma_round_over_wf(before, failed, None, after, reaction);
    } else {
        let turned = before.turned(left, failed);
        crate::multi::lemma_turned(before, left, failed);
        crate::multi::lemma_requeued(turned);
        let message = before.consumers[before.queue[0]].consumer.current_message();
        if message is Some {
            lemma_round_over_wf(turned.requeued(), failed, message, after, reaction);
        }
    }
}

/// No step breaks it: exactly the topics that have a consumer are visited.
pub proof fn step_keeps_visited_topics<
    T: DeserializeMessage,
    Io,
    S,
    P: Fn(u32, &Vec<u8>) -> Result<Vec<BatchedMessage>, ConnectionError>,
>(
    before: MultiView<Io, S>,
    event: MultiEvent<T, Io>,
    parse: &P,
    after: MultiView<Io, S>,
    reaction: Reaction<T>,
)
    requires
        before.wf(),
        crate::multi::can_happen(before, event),
        crate::multi::multi_step(before, event, parse, after, reaction),
    ensures
        after.wf(),
{
    match event {
        MultiEvent::Creation(Poll::Ready(Ok(consumers))) => {
            let new = crate::multi::members(consumers@);
            assert forall|i: int| 0 <= i < new.len() implies (#[trigger] new[i]).consumer.wf() by {
                assert(consumers@[i]@.wf());
            }
            lemma_added_wf(before, new);
            crate::multi::lemma_added_keeps(before, new);
            lemma_wf_of_topics(before.added(new), after);
        },
        MultiEvent::Refresh(Poll::Ready(Some(_))) => {
            lemma_wf_of_topics(before, after);
        },
        MultiEvent::Refresh(_) => {
            lemma_next_turn_wf(before, before.queue.len(), seq![], after, reaction);
        },
        MultiEvent::Consumer(event) => {
            let member = before.polled_member();
            let round = before.round->0;
            let (consumer, step) = choose|consumer: ConsumerView, step: PollAction<T>|
                {
                    &&& #[trigger] crate::consumer::poll_step(
                        member.consumer,
                        event,
                        parse,
                        consumer,
                        step,
                    )
                    &&& crate::multi::after_consumer_step(before, consumer, step, after, reaction)
                };
            assert(before.visits(round.topic));
            assert(before.consumers.contains_key(round.topic));
            crate::consumer::permits_are_conserved(member.consumer, event, parse, consumer, step);
            crate::multi::lemma_stepped(before, consumer);
            let requeued = before.stepped(consumer).requeued();
            crate::multi::lemma_requeued(before.stepped(consumer));
            match step {
                PollAction::Return(Poll::Ready(Some(Ok(m)))) => {
                    lemma_round_over_wf(requeued, round.failed, Some(m@), after, reaction);
                },
                PollAction::Return(Poll::Pending) => {
                    lemma_next_turn_wf(requeued, round.left, round.failed, after, reaction);
                },
                PollAction::Return(_) => {
                    let failed = round.failed.push(round.topic);
                    lemma_next_turn_wf(requeued, round.left, failed, after, reaction);
                },
                _ => {},
            }
        },
        _ => {
            lemma_wf_of_topics(before, after);
        },
    }
}

/// Every message that is delivered is counted, and nothing else is.
pub proof fn messages_are_counted<
    T: DeserializeMessage,
    Io,
    S,
    P: Fn(u32, &Vec<u8>) -> Result<Vec<BatchedMessage>, ConnectionError>,
>(
    before: MultiView<Io, S>,
    event: MultiEvent<T, Io>,
    parse: &P,
    after: MultiView<Io, S>,
    reaction: Reaction<T>,
)
    requires
        crate::multi::multi_step(before, event, parse, after, reaction),
        before.messages_received < u64::MAX,
    ensures
        delivers(reaction.action) ==> after.messages_received == before.messages_received + 1
            && after.last_message_received is Some,
        !delivers(reaction.action) ==> after.messages_received == before.messages_received
            && after.last_message_received == before.last_message_received,
{
    if let MultiEvent::Creation(Poll::Ready(Ok(consumers))) = event {
        crate::multi::lemma_added_keeps(before, crate::multi::members(consumers@));
    }
}

/// Two states that describe the same consumer list the same topics, in the same order.
pub proof fn published_topics_are_determined<Io, S>(
    view: MultiView<Io, S>,
    a: ConsumerState,
    b: ConsumerState,
)
    requires
        view.describes(a),
        view.describes(b),
    ensures
        crate::text_list::texts(a.connected_topics@) == crate::text_list::texts(
            b.connected_topics@,
        ),
        a.last_message_received == b.last_message_received,
        a.messages_received == b.messages_received,
{
    let x = crate::text_list::texts(a.connected_topics@);
    let y = crate::text_list::texts(b.connected_topics@);
    assert forall|topic: Seq<char>| #[trigger] x.contains(topic) <==> y.contains(topic) by {
        assert(x.contains(topic) <==> view.consumers.contains_key(topic));
        assert(y.contains(topic) <==> view.consumers.contains_key(topic));
    }
    crate::text_list::ordered_list_is_determined(x, y);
}

/// The consumer that is being polled failed, or has no more messages.
pub open spec fn fails<T>(step: PollAction<T>) -> bool {
    step matches PollAction::Return(Poll::Ready(polled)) && !(polled matches Some(Ok(_)))
}

/// A topic whose consumer fails in a round is dropped when the round is over, whatever the other
/// topics bring.
pub proof fn failing_consumers_are_dropped<T, Io, S>(
    before: MultiView<Io, S>,
    consumer: ConsumerView,
    step: PollAction<T>,
    after: MultiView<Io, S>,
    reaction: Reaction<T>,
    topic: Seq<char>,
)
    requires
        before.round is Some,
        crate::multi::after_consumer_step(before, consumer, step, after, reaction),
        before.round->0.failed.contains(topic) || (topic == before.round->0.topic && fails(step)),
    ensures
        after.round is Some ==> after.round->0.failed.contains(topic),
        after.round is None ==> !after.consumers.contains_key(topic) && !after.queue.contains(
            topic,
        ),
{
    let round = before.round->0;
    let failed = if fails(step) {
        round.failed.push(round.topic)
    } else {
        round.failed
    };
    assert(failed.contains(topic)) by {
        crate::text_list::lemma_to_set_push(round.failed, round.topic);
        assert(round.failed.push(round.topic).to_set().contains(topic)
            <==> round.failed.to_set().insert(round.topic).contains(topic));
    }
    assert(failed.to_set().contains(topic));
    let pred = |t: Seq<char>| !failed.contains(t);
    if after.round is None {
        let requeued = before.stepped(consumer).requeued();
        crate::text_list::lemma_filter_contains(requeued.queue, pred, topic);
        crate::text_list::lemma_filter_contains(
            requeued.turned(round.left, failed).requeued().queue,
            pred,
            topic,
        );
    }
}

/// What is left of a queue when the topics that failed are dropped.
pub open spec fn without(queue: Seq<Seq<char>>, failed: Seq<Seq<char>>) -> Seq<Seq<char>> {
    queue.filter(|topic: Seq<char>| !failed.contains(topic))
}

/// A queue after its first `n` topics went to the end, in the same order.
pub open spec fn rotated(queue: Seq<Seq<char>>, n: int) -> Seq<Seq<char>> {
    queue.skip(n) + queue.take(n)
}

/// A round that began with the queue `start` has come to the topic at place `n`.
pub open spec fn in_round<Io, S>(start: Seq<Seq<char>>, view: MultiView<Io, S>, n: int) -> bool {
    &&& view.round is Some
    &&& 0 <= n < start.len()
    &&& view.round->0.topic == start[n]
    &&& view.round->0.left == start.len() - 1 - n
    &&& view.queue == start.skip(n + 1) + start.take(n)
}

/// What a round that began with the queue `start` comes to once `n` topics had their turn: the
/// next topic has its turn, or the round is over. It is over without a message only when all had
/// their turn. Those that had their turn are then behind those that had not, each group in its
/// order, and those that failed are gone.
pub open spec fn round_goes_on<T, Io, S>(
    start: Seq<Seq<char>>,
    n: int,
    failed: Seq<Seq<char>>,
    after: MultiView<Io, S>,
    action: MultiAction<T>,
) -> bool {
    match action {
        MultiAction::Consumer(_) => in_round(start, after, n) && after.round->0.failed == failed,
        MultiAction::Return(Poll::Pending) => n == start.len() && after.round is None
            && after.queue == without(start, failed),
        MultiAction::Return(_) => after.round is None && (after.queue == without(
            rotated(start, n),
            failed,
        ) || (n < start.len() && after.queue == without(rotated(start, n + 1), failed))),
        _ => false,
    }
}

proof fn lemma_next_turn<T, Io, S>(
    start: Seq<Seq<char>>,
    n: int,
    before: MultiView<Io, S>,
    failed: Seq<Seq<char>>,
    after: MultiView<Io, S>,
    reaction: Reaction<T>,
)
    requires
        0 <= n <= start.len(),
        before.queue == rotated(start, n),
        before.round is None,
        crate::multi::next_turn(before, (start.len() - n) as nat, failed, after, reaction),
    ensures
        round_goes_on(start, n, failed, after, reaction.action),
{
    if n == start.len() {
        assert(rotated(start, n) =~= start);
    } else {
        let turned = before.turned((start.len() - n) as nat, failed);
        assert(before.queue[0] == start[n]);
        assert(turned.queue =~= start.skip(n + 1) + start.take(n));
        assert(turned.requeued().queue =~= rotated(start, n + 1));
    }
}

/// A round begins with the topic at the front of the queue.
pub proof fn round_begins_at_the_front<
    T: DeserializeMessage,
    Io,
    S,
    P: Fn(u32, &Vec<u8>) -> Result<Vec<BatchedMessage>, ConnectionError>,
>(
    before: MultiView<Io, S>,
    tick: Poll<Option<()>>,
    parse: &P,
    after: MultiView<Io, S>,
    reaction: Reaction<T>,
)
    requires
        before.round is None,
        !(tick matches Poll::Ready(Some(_))),
        crate::multi::multi_step(
            before,
            MultiEvent::<T, Io>::Refresh(tick),
            parse,
            after,
            reaction,
        ),
    ensures
        round_goes_on(before.queue, 0, seq![], after, reaction.action),
{
    assert(rotated(before.queue, 0) =~= before.queue);
    lemma_next_turn(before.queue, 0, before, seq![], after, reaction);
}

/// A round visits the topics in the order of the queue, each once: it stays with a topic until its
/// consumer brings something, and then goes on to the next, unless a message ends it.
pub proof fn round_visits_topics_in_turn<T, Io, S>(
    start: Seq<Seq<char>>,
    n: int,
    before: MultiView<Io, S>,
    consumer: ConsumerView,
    step: PollAction<T>,
    after: MultiView<Io, S>,
    reaction: Reaction<T>,
)
    requires
        in_round(start, before, n),
        crate::multi::after_consumer_step(before, consumer, step, after, reaction),
    ensures
        ({
            let failed = before.round->0.failed;
            match step {
                PollAction::Return(Poll::Ready(Some(Ok(_)))) => delivers(reaction.action)
                    && after.round is None && after.queue == without(
                    rotated(start, n + 1),
                    failed,
                ),
                PollAction::Return(Poll::Pending) => round_goes_on(
                    start,
                    n + 1,
                    failed,
                    after,
                    reaction.action,
                ),
                PollAction::Return(_) => round_goes_on(
                    start,
                    n + 1,
                    failed.push(start[n]),
                    after,
                    reaction.action,
                ),
                _ => in_round(start, after, n) && after.round->0.failed == failed
                    && reaction.action == MultiAction::Consumer(step),
            }
        }),
{
    let round = before.round->0;
    let requeued = before.stepped(consumer).requeued();
    assert(requeued.queue =~= rotated(start, n + 1));
    match step {
        PollAction::Return(Poll::Ready(Some(Ok(_)))) => {},
        PollAction::Return(Poll::Pending) => {
            lemma_next_turn(start, n + 1, requeued, round.failed, after, reaction);
        },
        PollAction::Return(_) => {
            lemma_next_turn(
                start,
                n + 1,
                requeued,
                round.failed.push(round.topic),
                after,
                reaction,
            );
        },
        _ => {},
    }
}

/// When a message is delivered, its topic has a consumer and is at the end of the queue of
/// `polled`, and then the topics in `failed` are dropped.
spec fn delivered_from<Io, S>(
    polled: MultiView<Io, S>,
    failed: Seq<Seq<char>>,
    topic: Seq<char>,
    after: MultiView<Io, S>,
) -> bool {
    &&& polled.queue.len() > 0
    &&& polled.queue.last() == topic
    &&& polled.consumers.contains_key(topic)
    &&& after.queue == without(polled.queue, failed)
    &&& after.consumers == polled.consumers.remove_keys(failed.to_set())
}

proof fn lemma_turn_delivers<T, Io, S>(
    before: MultiView<Io, S>,
    left: nat,
    failed: Seq<Seq<char>>,
    after: MultiView<Io, S>,
    reaction: Reaction<T>,
    message: Message<T>,
)
    requires
        before.wf(),
        before.round is None,
        left <= before.queue.len(),
        crate::multi::next_turn(before, left, failed, after, reaction),
        reaction.action == MultiAction::Return(Poll::Ready(Some(Ok::<_, Error>(message)))),
    ensures
        left > 0,
        message.topic@ == before.queue[0],
        delivered_from(
            before.turned(left, failed).requeued(),
            failed,
            message.topic@,
            after,
        ),
{
    assert(message@.topic == message.topic@);
    if left > 0 {
        assert(before.visits(before.queue[0]));
        assert(before.consumers.contains_key(before.queue[0]));
    }
}

/// Where a message comes from, and what is dropped with it.
proof fn lemma_step_delivers<
    T: DeserializeMessage,
    Io,
    S,
    P: Fn(u32, &Vec<u8>) -> Result<Vec<BatchedMessage>, ConnectionError>,
>(
    before: MultiView<Io, S>,
    event: MultiEvent<T, Io>,
    parse: &P,
    after: MultiView<Io, S>,
    reaction: Reaction<T>,
    message: Message<T>,
) -> (r: (MultiView<Io, S>, Seq<Seq<char>>))
    requires
        before.wf(),
        crate::multi::can_happen(before, event),
        crate::multi::multi_step(before, event, parse, after, reaction),
        reaction.action == MultiAction::Return(Poll::Ready(Some(Ok::<_, Error>(message)))),
    ensures
        delivered_from(r.0, r.1, message.topic@, after),
        before.round is None ==> r.1.len() == 0,
        before.round matches Some(round) ==> r.1 == round.failed || (r.1 == round.failed.push(
            round.topic,
        ) && (before.queue.contains(message.topic@))),
{
    assert(message@.topic == message.topic@);
    match event {
        MultiEvent::Refresh(_) => {
            let failed = Seq::<Seq<char>>::empty();
            lemma_turn_delivers(before, before.queue.len(), failed, after, reaction, message);
            (before.turned(before.queue.len(), failed).requeued(), failed)
        },
        MultiEvent::Consumer(event) => {
            let member = before.polled_member();
            let round = before.round->0;
            let (consumer, step) = choose|consumer: ConsumerView, step: PollAction<T>|
                {
                    &&& #[trigger] crate::consumer::poll_step(
                        member.consumer,
                        event,
                        parse,
                        consumer,
                        step,
                    )
                    &&& crate::multi::after_consumer_step(before, consumer, step, after, reaction)
                };
            assert(before.visits(round.topic));
            assert(before.consumers.contains_key(round.topic));
            crate::consumer::permits_are_conserved(member.consumer, event, parse, consumer, step);
            crate::multi::lemma_stepped(before, consumer);
            let requeued = before.stepped(consumer).requeued();
            crate::multi::lemma_requeued(before.stepped(consumer));
            match step {
                PollAction::Return(Poll::Ready(Some(Ok(m)))) => {
                    crate::consumer::messages_are_of_the_topic(
                        member.consumer,
                        event,
                        parse,
                        consumer,
                        m,
                    );
                    (requeued, round.failed)
                },
                PollAction::Return(Poll::Pending) => {
                    lemma_turn_delivers(
                        requeued,
                        round.left,
                        round.failed,
                        after,
                        reaction,
                        message,
                    );
                    (requeued.turned(round.left, round.failed).requeued(), round.failed)
                },
                _ => {
                    let failed = round.failed.push(round.topic);
                    lemma_turn_delivers(requeued, round.left, failed, after, reaction, message);
                    assert(before.queue[0] == message.topic@);
                    (requeued.turned(round.left, failed).requeued(), failed)
                },
            }
        },
        _ => (before, seq![]),
    }
}

/// A topic that just brought a message comes last: every other topic gets its turn before it.
pub proof fn delivering_topic_comes_last<
    T: DeserializeMessage,
    Io,
    S,
    P: Fn(u32, &Vec<u8>) -> Result<Vec<BatchedMessage>, ConnectionError>,
>(
    before: MultiView<Io, S>,
    event: MultiEvent<T, Io>,
    parse: &P,
    after: MultiView<Io, S>,
    reaction: Reaction<T>,
    message: Message<T>,
)
    requires
        before.wf(),
        crate::multi::can_happen(before, event),
        crate::multi::multi_step(before, event, parse, after, reaction),
        reaction.action == MultiAction::Return(Poll::Ready(Some(Ok::<_, Error>(message)))),
        after.consumers.contains_key(message.topic@),
    ensures
        after.queue.len() > 0,
        after.queue.last() == message.topic@,
{
    let (polled, failed) = lemma_step_delivers(before, event, parse, after, reaction, message);
    let pred = |t: Seq<char>| !failed.contains(t);
    assert(!failed.to_set().contains(message.topic@));
    crate::text_list::lemma_filter_push(polled.queue.drop_last(), message.topic@, pred);
    assert(polled.queue =~= polled.queue.drop_last().push(message.topic@));
}

/// A message that is delivered can be acknowledged: its topic still has a consumer. Only a topic
/// that is listed twice can fail and bring a message in the same round.
pub proof fn delivered_messages_can_be_acknowledged<
    T: DeserializeMessage,
    Io,
    S,
    P: Fn(u32, &Vec<u8>) -> Result<Vec<BatchedMessage>, ConnectionError>,
>(
    before: MultiView<Io, S>,
    event: MultiEvent<T, Io>,
    parse: &P,
    after: MultiView<Io, S>,
    reaction: Reaction<T>,
    message: Message<T>,
)
    requires
        before.wf(),
        crate::multi::can_happen(before, event),
        crate::multi::multi_step(before, event, parse, after, reaction),
        reaction.action == MultiAction::Return(Poll::Ready(Some(Ok::<_, Error>(message)))),
        before.round matches Some(round) ==> !before.queue.contains(round.topic)
            && !round.failed.contains(message.topic@),
    ensures
        after.consumers.contains_key(message.topic@),
{
    let (_, failed) = lemma_step_delivers(before, event, parse, after, reaction, message);
    if before.round is Some {
        let round = before.round->0;
        crate::text_list::lemma_to_set_push(round.failed, round.topic);
    }
    assert(!failed.to_set().contains(message.topic@));
}

/// No step changes what the multi-topic consumer was built with, or the streams that listen to it.
pub proof fn settings_never_change<
    T: DeserializeMessage,
    Io,
    S,
    P: Fn(u32, &Vec<u8>) -> Result<Vec<BatchedMessage>, ConnectionError>,
>(
    before: MultiView<Io, S>,
    event: MultiEvent<T, Io>,
    parse: &P,
    after: MultiView<Io, S>,
    reaction: Reaction<T>,
)
    requires
        crate::multi::multi_step(before, event, parse, after, reaction),
    ensures
        after.namespace == before.namespace,
        after.pattern == before.pattern,
        after.delay == before.delay,
        after.topic_refresh == before.topic_refresh,
        after.subscription == before.subscription,
        after.sub_type == before.sub_type,
        after.options == before.options,
        after.streams == before.streams,
{
    if let MultiEvent::Creation(Poll::Ready(Ok(consumers))) = event {
        crate::multi::lemma_added_keeps(before, crate::multi::members(consumers@));
    }
}

/// A look for new topics carries what the multi-topic consumer was built with, and knows which
/// topics have a consumer. So does every consumer that it asks for.
pub proof fn refresh_carries_the_settings<Io, S>(
    view: MultiView<Io, S>,
    topics: Seq<Seq<char>>,
    i: int,
)
    ensures
        view.refresh().namespace == view.namespace,
        view.refresh().subscription == view.subscription,
        view.refresh().sub_type == view.sub_type,
        view.refresh().delay == view.delay,
        view.refresh().options == view.options,
        view.refresh().wanted == crate::pattern::matched(view.pattern),
        forall|topic: Seq<char>| #[trigger]
            view.refresh().existing.contains(topic) <==> view.consumers.contains_key(topic),
        0 <= i < view.refresh().requests(topics).len() ==> {
            let request = view.refresh().requests(topics)[i];
            &&& request.subscription == view.subscription
            &&& request.sub_type == view.sub_type
            &&& request.delay == view.delay
            &&& request.options == view.options
            &&& request.batch_size is None
            &&& request.consumer_name is None
            &&& request.consumer_id is None
            &&& topics.contains(request.topic)
            &&& crate::pattern::matched(view.pattern).contains(request.topic)
            &&& !view.consumers.contains_key(request.topic)
        },
{
    if 0 <= i < view.refresh().requests(topics).len() {
        crate::refresh::requests_carry_the_settings(view.refresh(), topics, i);
    }
}

/// A tick of the refresh timer begins to create consumers with what the multi-topic consumer was
/// built with: each that is asked for has its subscription, type of subscription, options and
/// redelivery delay, and is of a topic of the namespace that matches the pattern and has no
/// consumer. Nothing else changes.
pub proof fn ticks_ask_for_consumers_with_the_settings<
    T: DeserializeMessage,
    Io,
    S,
    P: Fn(u32, &Vec<u8>) -> Result<Vec<BatchedMessage>, ConnectionError>,
>(
    before: MultiView<Io, S>,
    parse: &P,
    after: MultiView<Io, S>,
    reaction: Reaction<T>,
    topics: Seq<Seq<char>>,
    i: int,
)
    requires
        crate::multi::multi_step(
            before,
            MultiEvent::<T, Io>::Refresh(Poll::Ready(Some(()))),
            parse,
            after,
            reaction,
        ),
    ensures
        reaction.action matches MultiAction::StartCreation(refresh) && {
            &&& refresh@.namespace == before.namespace
            &&& refresh@.subscription == before.subscription
            &&& refresh@.sub_type == before.sub_type
            &&& refresh@.delay == before.delay
            &&& refresh@.options == before.options
            &&& refresh@.wanted == crate::pattern::matched(before.pattern)
            &&& forall|topic: Seq<char>| #[trigger]
                refresh@.existing.contains(topic) <==> before.consumers.contains_key(topic)
            &&& 0 <= i < refresh@.requests(topics).len() ==> {
                let request = refresh@.requests(topics)[i];
                &&& request.subscription == before.subscription
                &&& request.sub_type == before.sub_type
                &&& request.delay == before.delay
                &&& request.options == before.options
                &&& request.batch_size is None
                &&& request.consumer_name is None
                &&& request.consumer_id is None
                &&& topics.contains(request.topic)
                &&& crate::pattern::matched(before.pattern).contains(request.topic)
                &&& !before.consumers.contains_key(request.topic)
            }
        },
        reaction.publish@.len() == 0,
        reaction.failure is None,
        after.creating,
        after.consumers == before.consumers,
        after.queue == before.queue,
        after.round == before.round,
        after.messages_received == before.messages_received,
        after.last_message_received == before.last_message_received,
{
    refresh_carries_the_settings(before, topics, i);
}

/// A multi-topic consumer that is polled looks at the consumers that are being created if there are
/// such, and else at its timer.
pub proof fn creation_comes_before_the_timer<
    T: DeserializeMessage,
    Io,
    S,
    P: Fn(u32, &Vec<u8>) -> Result<Vec<BatchedMessage>, ConnectionError>,
>(
    before: MultiView<Io, S>,
    parse: &P,
    after: MultiView<Io, S>,
    reaction: Reaction<T>,
)
    requires
        crate::multi::multi_step(before, MultiEvent::<T, Io>::Woken, parse, after, reaction),
    ensures
        after == before,
        before.creating ==> reaction.action == MultiAction::<T>::PollCreation,
        !before.creating ==> reaction.action == MultiAction::<T>::PollRefresh,
        reaction.publish@.len() == 0,
        reaction.failure is None,
{
}

/// The queue after consumers were added has their topics at its end, in order. Each topic then has
/// the consumer that was added last for it; a topic for which none was added keeps what it had.
pub proof fn new_consumers_join_at_the_end<Io, S>(
    view: MultiView<Io, S>,
    new: Seq<Member<Io>>,
    topic: Seq<char>,
)
    ensures
        view.added(new).queue == view.queue + new.map_values(
            |m: Member<Io>| m.consumer.topic,
        ),
        (forall|i: int| 0 <= i < new.len() ==> (#[trigger] new[i]).consumer.topic != topic) ==> {
            &&& view.added(new).consumers.contains_key(topic) <==> view.consumers.contains_key(
                topic,
            )
            &&& view.consumers.contains_key(topic) ==> view.added(new).consumers[topic]
                == view.consumers[topic]
        },
        forall|k: int|
            0 <= k < new.len() && (#[trigger] new[k]).consumer.topic == topic && (forall|i: int|
                k < i < new.len() ==> (#[trigger] new[i]).consumer.topic != topic) ==> {
                &&& view.added(new).consumers.contains_key(topic)
                &&& view.added(new).consumers[topic] == new[k]
            },
    decreases new.len(),
{
    let names = new.map_values(|m: Member<Io>| m.consumer.topic);
    if new.len() == 0 {
        assert(view.queue + names =~= view.queue);
    } else {
        let front = new.drop_last();
        new_consumers_join_at_the_end(view, front, topic);
        let front_names = front.map_values(|m: Member<Io>| m.consumer.topic);
        assert(names =~= front_names.push(new.last().consumer.topic));
        assert(view.queue + names =~= (view.queue + front_names).push(
            new.last().consumer.topic,
        ));
        assert(forall|i: int| 0 <= i < front.len() ==> (#[trigger] front[i]) == new[i]);
        if forall|i: int| 0 <= i < new.len() ==> (#[trigger] new[i]).consumer.topic != topic {
            assert(new[new.len() - 1].consumer.topic != topic);
        }
        assert forall|k: int|
            0 <= k < new.len() && (#[trigger] new[k]).consumer.topic == topic && (forall|i: int|
                k < i < new.len() ==> (#[trigger] new[i]).consumer.topic != topic) implies {
            &&& view.added(new).consumers.contains_key(topic)
            &&& view.added(new).consumers[topic] == new[k]
        } by {
            if k < new.len() - 1 {
                assert(new[new.len() - 1].consumer.topic != topic);
                assert(front[k].consumer.topic == topic);
            }
        }
    }
}

/// Consumers that were created join the queue at its end, each as it was created and with what it
/// carries, and the timer is looked at. While they are not there yet nothing changes; where they
/// could not be created they are waited for no more. The streams hear of new consumers.
pub proof fn created_consumers_are_taken_in<
    T: DeserializeMessage,
    Io,
    S,
    P: Fn(u32, &Vec<u8>) -> Result<Vec<BatchedMessage>, ConnectionError>,
>(
    before: MultiView<Io, S>,
    polled: Poll<Result<Vec<crate::consumer::Consumer<T, Io>>, Error>>,
    parse: &P,
    after: MultiView<Io, S>,
    reaction: Reaction<T>,
)
    requires
        crate::multi::multi_step(
            before,
            MultiEvent::<T, Io>::Creation(polled),
            parse,
            after,
            reaction,
        ),
    ensures
        reaction.action == MultiAction::<T>::PollRefresh,
        reaction.failure is None,
        after.round == before.round,
        after.messages_received == before.messages_received,
        after.last_message_received == before.last_message_received,
        match polled {
            Poll::Pending => after == before && reaction.publish@.len() == 0,
            Poll::Ready(Err(_)) => {
                &&& !after.creating
                &&& after.consumers == before.consumers
                &&& after.queue == before.queue
                &&& reaction.publish@.len() == 0
            },
            Poll::Ready(Ok(consumers)) => {
                &&& !after.creating
                &&& after.queue.len() == before.queue.len() + consumers@.len()
                &&& forall|i: int|
                    0 <= i < before.queue.len() ==> #[trigger] after.queue[i] == before.queue[i]
                &&& forall|i: int|
                    0 <= i < consumers@.len() ==> after.queue[before.queue.len() + i] == (
                    #[trigger] consumers@[i])@.topic
                &&& forall|i: int|
                    0 <= i < consumers@.len() ==> after.consumers.contains_key(
                        (#[trigger] consumers@[i])@.topic,
                    )
                &&& before.streams.len() == 0 ==> reaction.publish@.len() == 0
                &&& before.streams.len() > 0 ==> {
                    &&& reaction.publish@.len() == 1
                    &&& after.describes(reaction.publish@[0])
                }
            },
        },
{
    if let Poll::Ready(Ok(consumers)) = polled {
        let new = crate::multi::members(consumers@);
        crate::multi::lemma_added_keeps(before, new);
        assert forall|i: int| 0 <= i < consumers@.len() implies after.queue[before.queue.len() + i]
            == (#[trigger] consumers@[i])@.topic && after.consumers.contains_key(
            consumers@[i]@.topic,
        ) by {
            let topic = consumers@[i]@.topic;
            assert(new[i].consumer.topic == topic);
            new_consumers_join_at_the_end(before, new, topic);
            lemma_added_has(before, new, i);
        }
        new_consumers_join_at_the_end(before, new, seq![]);
    }
}

proof fn lemma_added_has<Io, S>(view: MultiView<Io, S>, new: Seq<Member<Io>>, i: int)
    requires
        0 <= i < new.len(),
    ensures
        view.added(new).consumers.contains_key(new[i].consumer.topic),
    decreases new.len(),
{
    if i < new.len() - 1 {
        lemma_added_has(view, new.drop_last(), i);
    }
}

/// When topics are dropped, exactly their consumers go; the others stay as they are. The queue loses
/// exactly these topics and keeps the order of the others.
pub proof fn dropping_topics_touches_no_other<Io, S>(
    view: MultiView<Io, S>,
    topics: Seq<Seq<char>>,
    topic: Seq<char>,
)
    ensures
        view.removed(topics).consumers.contains_key(topic) <==> view.consumers.contains_key(topic)
            && !topics.contains(topic),
        view.removed(topics).consumers.contains_key(topic) ==> view.removed(topics).consumers[topic]
            == view.consumers[topic],
        view.removed(topics).queue.contains(topic) <==> view.queue.contains(topic)
            && !topics.contains(topic),
        (forall|i: int| 0 <= i < view.queue.len() ==> !topics.contains(#[trigger] view.queue[i]))
            ==> view.removed(topics).queue == view.queue,
        view.removed(topics).round == view.round,
        view.removed(topics).messages_received == view.messages_received,
        view.removed(topics).last_message_received == view.last_message_received,
        view.removed(topics).creating == view.creating,
        view.removed(topics).streams == view.streams,
        view.removed(topics).delay == view.delay,
        view.removed(topics).namespace == view.namespace,
        view.removed(topics).subscription == view.subscription,
        view.removed(topics).pattern == view.pattern,
        view.removed(topics).options == view.options,
        view.removed(topics).sub_type == view.sub_type,
        view.removed(topics).topic_refresh == view.topic_refresh,
{
    let pred = |t: Seq<char>| !topics.contains(t);
    crate::text_list::lemma_filter_contains(view.queue, pred, topic);
    assert(topics.to_set().contains(topic) <==> topics.contains(topic));
    if forall|i: int| 0 <= i < view.queue.len() ==> !topics.contains(#[trigger] view.queue[i]) {
        crate::text_list::lemma_filter_all(view.queue, pred);
    }
}

/// A message that is received is counted once, at its time, and nothing else changes.
pub proof fn recording_counts_one<Io, S>(view: MultiView<Io, S>, now: crate::time::Timestamp)
    requires
        view.messages_received < u64::MAX,
    ensures
        view.recorded(now).messages_received == view.messages_received + 1,
        view.recorded(now).last_message_received == Some(now),
        view.recorded(now).consumers == view.consumers,
        view.recorded(now).queue == view.queue,
        view.recorded(now).round == view.round,
        view.recorded(now).creating == view.creating,
        view.recorded(now).streams == view.streams,
        view.recorded(now).delay == view.delay,
{
}

/// A state that is published lists exactly the topics that have a consumer, in increasing order,
/// with the number of messages and the time of the last one.
pub proof fn published_states_are_exact<Io, S>(view: MultiView<Io, S>, state: ConsumerState)
    requires
        view.describes(state),
    ensures
        forall|i: int, j: int|
            0 <= i < j < state.connected_topics@.len() ==> crate::text::text_less(
                (#[trigger] state.connected_topics@[i])@,
                (#[trigger] state.connected_topics@[j])@,
            ),
        forall|i: int|
            0 <= i < state.connected_topics@.len() ==> view.consumers.contains_key(
                (#[trigger] state.connected_topics@[i])@,
            ),
        forall|topic: Seq<char>| #[trigger]
            view.consumers.contains_key(topic) ==> exists|i: int|
                0 <= i < state.connected_topics@.len() && (
                #[trigger] state.connected_topics@[i])@ == topic,
        state.messages_received == view.messages_received,
        state.last_message_received == view.last_message_received,
{
    let names = crate::text_list::texts(state.connected_topics@);
    assert forall|i: int, j: int|
        0 <= i < j < state.connected_topics@.len() implies crate::text::text_less(
        (#[trigger] state.connected_topics@[i])@,
        (#[trigger] state.connected_topics@[j])@,
    ) by {
        assert(crate::text::text_less(names[i], names[j]));
    }
    assert forall|i: int|
        0 <= i < state.connected_topics@.len() implies view.consumers.contains_key(
        (#[trigger] state.connected_topics@[i])@,
    ) by {
        assert(names[i] == state.connected_topics@[i]@);
        assert(names.contains(names[i]));
    }
    assert forall|topic: Seq<char>| #[trigger]
        view.consumers.contains_key(topic) implies exists|i: int|
        0 <= i < state.connected_topics@.len() && (#[trigger] state.connected_topics@[i])@
            == topic by {
        assert(names.contains(topic));
        let i = choose|i: int| 0 <= i < names.len() && names[i] == topic;
        assert(state.connected_topics@[i]@ == topic);
    }
}

/// When a poll ends, the streams, if there are any, were told last how the multi-topic consumer
/// then is. A poll that brings a message tells them before that which topics are left, when the
/// message is not counted yet.
pub proof fn streams_hear_of_the_end_of_a_poll<
    T: DeserializeMessage,
    Io,
    S,
    P: Fn(u32, &Vec<u8>) -> Result<Vec<BatchedMessage>, ConnectionError>,
>(
    before: MultiView<Io, S>,
    event: MultiEvent<T, Io>,
    parse: &P,
    after: MultiView<Io, S>,
    reaction: Reaction<T>,
)
    requires
        crate::multi::multi_step(before, event, parse, after, reaction),
        reaction.action is Return,
    ensures
        before.streams.len() == 0 ==> reaction.publish@.len() == 0,
        before.streams.len() > 0 ==> {
            &&& reaction.publish@.len() == (if delivers(reaction.action) {
                2nat
            } else {
                1nat
            })
            &&& after.describes(reaction.publish@.last())
            &&& delivers(reaction.action) ==> {
                let first = reaction.publish@[0];
                &&& first.messages_received == before.messages_received
                &&& first.last_message_received == before.last_message_received
                &&& crate::text_list::in_order(
                    crate::text_list::texts(first.connected_topics@),
                )
                &&& forall|topic: Seq<char>| #[trigger]
                    crate::text_list::texts(first.connected_topics@).contains(topic)
                        <==> after.consumers.contains_key(topic)
            }
        },
{
}

/// A step of the consumer that is being polled changes nothing of any other consumer, except that
/// of the topic whose turn comes next, which looks for the next message of its current batch. What
/// a consumer carries never changes.
pub proof fn consumers_keep_what_they_carry<T, Io, S>(
    before: MultiView<Io, S>,
    consumer: ConsumerView,
    step: PollAction<T>,
    after: MultiView<Io, S>,
    reaction: Reaction<T>,
    topic: Seq<char>,
)
    requires
        before.round is Some,
        before.wf(),
        crate::multi::after_consumer_step(before, consumer, step, after, reaction),
        after.consumers.contains_key(topic),
    ensures
        before.consumers.contains_key(topic),
        after.consumers[topic].io == before.consumers[topic].io,
        topic != before.round->0.topic && (before.queue.len() == 0 || topic != before.queue[0])
            ==> after.consumers[topic].consumer == before.consumers[topic].consumer,
        topic == before.round->0.topic && before.queue.len() > 0 && topic != before.queue[0]
            ==> after.consumers[topic].consumer == consumer,
{
    assert(before.visits(before.round->0.topic));
    assert(before.consumers.contains_key(before.round->0.topic));
    if before.queue.len() > 0 {
        assert(before.visits(before.queue[0]));
        assert(before.consumers.contains_key(before.queue[0]));
        assert(before.stepped(consumer).requeued().queue[0] == before.queue[0]);
    }
}

/// What comes of a topic's poll: a message is delivered as it is; an error is told with its topic,
/// and so is the end of its messages; of anything else nothing is told.
pub proof fn outcomes_are_told<T, Io, S>(
    before: MultiView<Io, S>,
    consumer: ConsumerView,
    step: PollAction<T>,
    after: MultiView<Io, S>,
    reaction: Reaction<T>,
)
    requires
        before.round is Some,
        crate::multi::after_consumer_step(before, consumer, step, after, reaction),
    ensures
        match step {
            PollAction::Return(Poll::Ready(Some(Ok(m)))) => {
                &&& reaction.action matches MultiAction::Return(Poll::Ready(Some(Ok(message))))
                &&& message.topic@ == m.topic@
                &&& message.payload@ == m.payload@
                &&& message.message_id == m.message_id
                &&& reaction.failure is None
            },
            PollAction::Return(Poll::Ready(Some(Err(e)))) => {
                &&& reaction.failure matches Some(failure)
                &&& failure.topic@ == before.round->0.topic
                &&& failure.error == Some(e)
            },
            PollAction::Return(Poll::Ready(None)) => {
                &&& reaction.failure matches Some(failure)
                &&& failure.topic@ == before.round->0.topic
                &&& failure.error is None
            },
            PollAction::Return(Poll::Pending) => reaction.failure is None,
            _ => reaction.failure is None && reaction.action == MultiAction::Consumer(step),
        },
{
    if let PollAction::Return(Poll::Ready(Some(Ok(m)))) = step {
        let message = ((reaction.action->Return_0)->Ready_0->0)->Ok_0;
        assert(message@ == m@);
    }
}

/// A message of a current batch is delivered at once when its topic's turn comes, without looking at
/// the connection of its consumer; otherwise that is looked at first.
pub proof fn turns_begin_with_current_batches<T, Io, S>(
    before: MultiView<Io, S>,
    left: nat,
    failed: Seq<Seq<char>>,
    after: MultiView<Io, S>,
    reaction: Reaction<T>,
)
    requires
        left > 0,
        before.queue.len() > 0,
        crate::multi::next_turn(before, left, failed, after, reaction),
    ensures
        ({
            let batch = before.consumers[before.queue[0]].consumer.current;
            let more = batch is Some && batch->0.current_index < batch->0.total_messages
                && batch->0.messages.len() > 0;
            &&& more ==> {
                &&& reaction.action matches MultiAction::Return(Poll::Ready(Some(Ok(message))))
                &&& message.topic@ == before.consumers[before.queue[0]].consumer.topic
                &&& message.message_id.id.batch_index == Some(batch->0.current_index as i32)
                &&& message.payload.data@ == batch->0.messages[0].payload
            }
            &&& !more ==> {
                &&& reaction.action == MultiAction::Consumer(PollAction::<T>::CheckConnection)
                &&& after.round matches Some(round) && round.topic == before.queue[0]
                    && round.left == left - 1 && round.failed == failed
                &&& after.queue == before.queue.drop_first()
            }
        }),
{
    let consumer = before.consumers[before.queue[0]].consumer;
    if consumer.current_message() is Some {
        let message = ((reaction.action->Return_0)->Ready_0->0)->Ok_0;
        assert(message@ == consumer.current_message()->0);
        assert(message@.payload == message.payload@);
        assert(message@.topic == message.topic@);
    }
}

/// Streams are kept or dropped one by one, by their marks, and keep their order.
pub proof fn streams_are_kept_by_their_marks<S>(
    first: Seq<S>,
    first_marks: Seq<bool>,
    second: Seq<S>,
    second_marks: Seq<bool>,
    stream: S,
)
    requires
        first.len() == first_marks.len(),
        second.len() == second_marks.len(),
    ensures
        crate::multi::kept(first + second, first_marks + second_marks) == crate::multi::kept(
            first,
            first_marks,
        ) + crate::multi::kept(second, second_marks),
        crate::multi::kept(seq![stream], seq![true]) == seq![stream],
        crate::multi::kept(seq![stream], seq![false]).len() == 0,
        crate::multi::kept(Seq::<S>::empty(), seq![]).len() == 0,
    decreases second.len(),
{
    let none = Seq::<S>::empty();
    let no_marks = Seq::<bool>::empty();
    assert(seq![stream].drop_last() =~= none);
    assert(crate::multi::kept(none, no_marks) == none);
    assert(seq![true].drop_last() =~= no_marks);
    assert(seq![false].drop_last() =~= no_marks);
    assert(crate::multi::kept(seq![stream], seq![true]) =~= seq![stream]);
    if second.len() == 0 {
        assert(first + second =~= first);
        assert(first_marks + second_marks =~= first_marks);
        assert(crate::multi::kept(first, first_marks) + crate::multi::kept(second, second_marks)
            =~= crate::multi::kept(first, first_marks));
    } else {
        streams_are_kept_by_their_marks(
            first,
            first_marks,
            second.drop_last(),
            second_marks.drop_last(),
            stream,
        );
        assert((first + second).drop_last() =~= first + second.drop_last());
        assert((first_marks + second_marks).drop_last() =~= first_marks + second_marks.drop_last());
        assert((first + second).last() == second.last());
        assert((first_marks + second_marks).last() == second_marks.last());
        assert(crate::multi::kept(first + second, first_marks + second_marks)
            =~= crate::multi::kept(first, first_marks) + crate::multi::kept(second, second_marks));
    }
}

} // verus!
