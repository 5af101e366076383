//! Redelivery of negatively acknowledged messages.
use std::collections::VecDeque;

use crate::error::ConnectionError;
use crate::message::MessageIdData;
use crate::nack_batches::{BatchTracker, Batches, MessageData};
use crate::poll::Poll;
use crate::time::{Clock, Duration};
use vstd::prelude::*;

verus! {

/// Messages that a consumer negatively acknowledged.
#[derive(Debug, PartialEq, Eq)]
pub struct NackMessage {
    pub consumer_id: u64,
    pub message_ids: Vec<MessageData>,
}

/// Entries that are to be redelivered to a consumer once the clock shows `when`.
#[derive(Debug, PartialEq, Eq)]
pub struct MessageResend {
    pub when: u128,
    pub consumer_id: u64,
    pub message_ids: Vec<MessageIdData>,
}

#[verifier::ext_equal]
pub struct ResendView {
    pub when: u128,
    pub consumer_id: u64,
    pub message_ids: Seq<MessageIdData>,
}

impl View for MessageResend {
    type V = ResendView;

    open spec fn view(&self) -> ResendView {
        ResendView {
            when: self.when,
            consumer_id: self.consumer_id,
            message_ids: self.message_ids@,
        }
    }
}

/// A request to the broker to redeliver entries to a consumer.
#[derive(Debug, PartialEq, Eq)]
pub struct Redelivery {
    pub consumer_id: u64,
    pub message_ids: Vec<MessageIdData>,
}

#[verifier::ext_equal]
pub struct RedeliveryView {
    pub consumer_id: u64,
    pub message_ids: Seq<MessageIdData>,
}

impl View for Redelivery {
    type V = RedeliveryView;

    open spec fn view(&self) -> RedeliveryView {
        RedeliveryView { consumer_id: self.consumer_id, message_ids: self.message_ids@ }
    }
}

/// What a list of resends holds.
pub open spec fn resend_views(resends: Seq<MessageResend>) -> Seq<ResendView> {
    resends.map_values(|r: MessageResend| r@)
}

/// What a list of redeliveries holds.
pub open spec fn redelivery_views(redeliveries: Seq<Redelivery>) -> Seq<RedeliveryView> {
    redeliveries.map_values(|r: Redelivery| r@)
}

/// The place of the resend that is due first; of several, the one that waits longest.
pub open spec fn earliest(pending: Seq<ResendView>) -> int
    decreases pending.len(),
{
    if pending.len() <= 1 {
        0
    } else {
        let e = earliest(pending.drop_last());
        if pending.last().when < pending[e].when {
            pending.len() - 1
        } else {
            e
        }
    }
}

/// What still waits after the `n` resends that are due first have left, one by one.
pub open spec fn waiting_after(pending: Seq<ResendView>, n: nat) -> Seq<ResendView>
    decreases n,
{
    if n == 0 {
        pending
    } else {
        let before = waiting_after(pending, (n - 1) as nat);
        before.remove(earliest(before))
    }
}

/// The resend that leaves next after `n` have left.
pub open spec fn due(pending: Seq<ResendView>, n: nat) -> ResendView {
    waiting_after(pending, n)[earliest(waiting_after(pending, n))]
}

/// The first `n` resends that leave, in the order in which they leave.
pub open spec fn departed(pending: Seq<ResendView>, n: nat) -> Seq<ResendView> {
    Seq::new(n, |k: int| due(pending, k as nat))
}

/// With `readings` of the clock, one before each departure and one that shows that the next
/// resend is not due, `n` resends leave.
pub open spec fn leaves(pending: Seq<ResendView>, readings: Seq<u128>, n: nat) -> bool {
    &&& n <= pending.len()
    &&& readings.len() == if n < pending.len() {
        n + 1
    } else {
        n
    }
    &&& forall|k: int| 0 <= k < n ==> due(pending, k as nat).when <= #[trigger] readings[k]
    &&& n < pending.len() ==> readings[n as int] < due(pending, n).when
}

/// The resends whose time has come when the clock shows `now`.
pub open spec fn ready(pending: Seq<ResendView>, now: u128) -> Seq<ResendView> {
    pending.filter(|r: ResendView| r.when <= now)
}

/// The resends whose time has not come when the clock shows `now`.
pub open spec fn not_ready(pending: Seq<ResendView>, now: u128) -> Seq<ResendView> {
    pending.filter(|r: ResendView| r.when > now)
}

/// The entries of `resends` that go to consumer `consumer_id`, in order.
pub open spec fn ids_for(resends: Seq<ResendView>, consumer_id: u64) -> Seq<MessageIdData>
    decreases resends.len(),
{
    if resends.len() == 0 {
        seq![]
    } else if resends.last().consumer_id == consumer_id {
        ids_for(resends.drop_last(), consumer_id) + resends.last().message_ids
    } else {
        ids_for(resends.drop_last(), consumer_id)
    }
}

/// Some resend goes to consumer `consumer_id`.
pub open spec fn goes_to(resends: Seq<ResendView>, consumer_id: u64) -> bool {
    exists|k: int| 0 <= k < resends.len() && (#[trigger] resends[k]).consumer_id == consumer_id
}

/// Some redelivery goes to consumer `consumer_id`.
pub open spec fn addressed(groups: Seq<RedeliveryView>, consumer_id: u64) -> bool {
    exists|k: int| 0 <= k < groups.len() && (#[trigger] groups[k]).consumer_id == consumer_id
}

/// `groups` holds one redelivery for each consumer that a resend goes to, with all its entries,
/// in increasing order of consumer.
pub open spec fn groups_of(resends: Seq<ResendView>, groups: Seq<RedeliveryView>) -> bool {
    &&& forall|i: int, j: int|
        0 <= i < j < groups.len() ==> (#[trigger] groups[i]).consumer_id < (
        #[trigger] groups[j]).consumer_id
    &&& forall|i: int|
        0 <= i < groups.len() ==> (#[trigger] groups[i]).message_ids == ids_for(
            resends,
            groups[i].consumer_id,
        )
    &&& forall|c: u64| #[trigger] addressed(groups, c) <==> #[trigger] goes_to(resends, c)
}

proof fn lemma_earliest(pending: Seq<ResendView>)
    requires
        pending.len() > 0,
    ensures
        0 <= earliest(pending) < pending.len(),
        forall|j: int|
            0 <= j < pending.len() ==> pending[earliest(pending)].when <= (
            #[trigger] pending[j]).when,
        forall|j: int|
            0 <= j < earliest(pending) ==> pending[earliest(pending)].when < (
            #[trigger] pending[j]).when,
    decreases pending.len(),
{
    if pending.len() > 1 {
        let front = pending.drop_last();
        lemma_earliest(front);
        assert forall|j: int| 0 <= j < pending.len() implies pending[earliest(pending)].when <= (
        #[trigger] pending[j]).when by {
            if j < front.len() {
                assert(front[j] == pending[j]);
            }
        }
        assert forall|j: int| 0 <= j < earliest(pending) implies pending[earliest(pending)].when < (
        #[trigger] pending[j]).when by {
            assert(front[j] == pending[j]);
        }
    }
}

proof fn lemma_waiting_len(pending: Seq<ResendView>, n: nat)
    requires
        n <= pending.len(),
    ensures
        waiting_after(pending, n).len() == pending.len() - n,
    decreases n,
{
    if n > 0 {
        lemma_waiting_len(pending, (n - 1) as nat);
        lemma_earliest(waiting_after(pending, (n - 1) as nat));
    }
}

/// Taking one element out of a list, and then filtering it.
proof fn lemma_filter_remove<A>(s: Seq<A>, i: int, pred: spec_fn(A) -> bool)
    requires
        0 <= i < s.len(),
    ensures
        !pred(s[i]) ==> s.remove(i).filter(pred) == s.filter(pred),
        pred(s[i]) ==> s.remove(i).filter(pred).len() + 1 == s.filter(pred).len(),
    decreases s.len(),
{
    let front = s.drop_last();
    assert(s =~= front.push(s.last()));
    crate::text_list::lemma_filter_push(front, s.last(), pred);
    if i == s.len() - 1 {
        assert(s.remove(i) =~= front);
    } else {
        assert(s.remove(i) =~= front.remove(i).push(s.last()));
        crate::text_list::lemma_filter_push(front.remove(i), s.last(), pred);
        lemma_filter_remove(front, i, pred);
    }
}

/// Filtering keeps all elements of a list that are all kept, and none of one whose elements are
/// all dropped.
proof fn lemma_filter_uniform<A>(s: Seq<A>, pred: spec_fn(A) -> bool)
    ensures
        (forall|i: int| 0 <= i < s.len() ==> pred(#[trigger] s[i])) ==> s.filter(pred) == s,
        (forall|i: int| 0 <= i < s.len() ==> !pred(#[trigger] s[i])) ==> s.filter(pred).len() == 0,
    decreases s.len(),
{
    reveal(Seq::filter);
    if s.len() > 0 {
        let front = s.drop_last();
        assert(s =~= front.push(s.last()));
        crate::text_list::lemma_filter_push(front, s.last(), pred);
        lemma_filter_uniform(front, pred);
        assert(forall|i: int| 0 <= i < front.len() ==> (#[trigger] front[i]) == s[i]);
        assert(s[s.len() - 1] == s.last());
    } else {
        assert(s.filter(pred) =~= s);
    }
}

/// After `k` resends that are ready at `now` left, the same ones are not ready, and `k` fewer are.
proof fn lemma_after_ready(pending: Seq<ResendView>, now: u128, k: nat)
    requires
        k <= pending.len(),
        forall|j: nat| j < k ==> (#[trigger] due(pending, j)).when <= now,
    ensures
        not_ready(waiting_after(pending, k), now) == not_ready(pending, now),
        ready(waiting_after(pending, k), now).len() + k == ready(pending, now).len(),
    decreases k,
{
    if k > 0 {
        let m = (k - 1) as nat;
        lemma_after_ready(pending, now, m);
        let before = waiting_after(pending, m);
        lemma_waiting_len(pending, m);
        lemma_earliest(before);
        assert(due(pending, m).when <= now);
        let e = earliest(before);
        lemma_filter_remove(before, e, |r: ResendView| r.when <= now);
        lemma_filter_remove(before, e, |r: ResendView| r.when > now);
    }
}

/// If `n` resends leave that are ready at `now`, and the next one is not, then all that are ready
/// leave.
proof fn lemma_departures_at(pending: Seq<ResendView>, now: u128, n: nat)
    requires
        n <= pending.len(),
        forall|k: nat| k < n ==> (#[trigger] due(pending, k)).when <= now,
        n < pending.len() ==> now < due(pending, n).when,
    ensures
        waiting_after(pending, n) == not_ready(pending, now),
        n == ready(pending, now).len(),
{
    let rest = waiting_after(pending, n);
    lemma_waiting_len(pending, n);
    lemma_after_ready(pending, now, n);
    if n < pending.len() {
        lemma_earliest(rest);
    }
    lemma_filter_uniform(rest, |r: ResendView| r.when <= now);
    lemma_filter_uniform(rest, |r: ResendView| r.when > now);
}

proof fn lemma_goes_to_push(resends: Seq<ResendView>, last: ResendView, c: u64)
    ensures
        goes_to(resends.push(last), c) <==> goes_to(resends, c) || last.consumer_id == c,
        ids_for(resends.push(last), c) == if last.consumer_id == c {
            ids_for(resends, c) + last.message_ids
        } else {
            ids_for(resends, c)
        },
        !goes_to(resends, c) ==> ids_for(resends, c) == Seq::<MessageIdData>::empty(),
{
    let all = resends.push(last);
    assert(all.drop_last() =~= resends);
    if goes_to(resends, c) {
        let k = choose|k: int|
            0 <= k < resends.len() && (#[trigger] resends[k]).consumer_id == c;
        assert(all[k] == resends[k]);
    }
    if last.consumer_id == c {
        assert(all[resends.len() as int] == last);
    }
    if goes_to(all, c) && last.consumer_id != c {
        let k = choose|k: int| 0 <= k < all.len() && (#[trigger] all[k]).consumer_id == c;
        assert(resends[k] == all[k]);
    }
    lemma_no_ids(resends, c);
}

proof fn lemma_no_ids(resends: Seq<ResendView>, c: u64)
    ensures
        !goes_to(resends, c) ==> ids_for(resends, c) == Seq::<MessageIdData>::empty(),
    decreases resends.len(),
{
    if !goes_to(resends, c) && resends.len() > 0 {
        let front = resends.drop_last();
        if goes_to(front, c) {
            let k = choose|k: int| 0 <= k < front.len() && (#[trigger] front[k]).consumer_id == c;
            assert(resends[k] == front[k]);
        }
        lemma_no_ids(front, c);
        assert(resends[resends.len() - 1] == resends.last());
    }
}

/// Adds a resend to the redelivery for its consumer.
fn add_to_groups(groups: &mut Vec<Redelivery>, resend: MessageResend, Ghost(resends): Ghost<
    Seq<ResendView>,
>)
    requires
        groups_of(resends, redelivery_views(old(groups)@)),
    ensures
        groups_of(resends.push(resend@), redelivery_views(final(groups)@)),
{
    let ghost before = redelivery_views(groups@);
    let ghost id = resend.consumer_id;
    let mut i: usize = 0;
    while i < groups.len() && groups[i].consumer_id < resend.consumer_id
        invariant
            i <= groups@.len(),
            forall|j: int| 0 <= j < i ==> (#[trigger] groups@[j]).consumer_id < resend.consumer_id,
        decreases groups@.len() - i,
    {
        i = i + 1;
    }
    let mut message_ids = resend.message_ids;
    if i < groups.len() && groups[i].consumer_id == resend.consumer_id {
        let mut group = groups.remove(i);
        group.message_ids.append(&mut message_ids);
        groups.insert(i, group);
        proof {
            let after = redelivery_views(groups@);
            assert(before[i as int].consumer_id == id);
            assert(after =~= before.update(
                i as int,
                RedeliveryView {
                    consumer_id: id,
                    message_ids: before[i as int].message_ids + resend@.message_ids,
                },
            ));
            assert forall|c: u64| addressed(after, c) == addressed(before, c) by {
                if addressed(before, c) {
                    let k = choose|k: int|
                        0 <= k < before.len() && (#[trigger] before[k]).consumer_id == c;
                    assert(after[k].consumer_id == c);
                }
                if addressed(after, c) {
                    let k = choose|k: int|
                        0 <= k < after.len() && (#[trigger] after[k]).consumer_id == c;
                    assert(before[k].consumer_id == c);
                }
            }
            assert forall|c: u64| #[trigger] addressed(after, c) <==> #[trigger] goes_to(
                resends.push(resend@),
                c,
            ) by {
                lemma_goes_to_push(resends, resend@, c);
                assert(addressed(before, id));
            }
            assert forall|k: int| 0 <= k < after.len() implies (#[trigger] after[k]).message_ids
                == ids_for(resends.push(resend@), after[k].consumer_id) by {
                lemma_goes_to_push(resends, resend@, after[k].consumer_id);
                assert(before[k].message_ids == ids_for(resends, before[k].consumer_id));
                if k != i {
                    assert(before[k].consumer_id != id);
                }
            }
            assert forall|x: int, y: int| 0 <= x < y < after.len() implies (
            #[trigger] after[x]).consumer_id < (#[trigger] after[y]).consumer_id by {
                assert(before[x].consumer_id < before[y].consumer_id);
            }
        }
    } else {
        let ghost ids = message_ids@;
        groups.insert(i, Redelivery { consumer_id: resend.consumer_id, message_ids });
        proof {
            let after = redelivery_views(groups@);
            let added = RedeliveryView { consumer_id: id, message_ids: ids };
            assert(after =~= before.insert(i as int, added));
            assert(forall|k: int| 0 <= k < i ==> after[k] == before[k]);
            assert(forall|k: int| i < k < after.len() ==> after[k] == before[k - 1]);
            assert forall|k: int| i <= k < before.len() implies id < (
            #[trigger] before[k]).consumer_id by {
                assert(before[i as int].consumer_id <= before[k].consumer_id);
                assert(groups@[i + 1].consumer_id == before[i as int].consumer_id);
            }
            assert(!addressed(before, id)) by {
                if addressed(before, id) {
                    let k = choose|k: int|
                        0 <= k < before.len() && (#[trigger] before[k]).consumer_id == id;
                    if k < i {
                        assert(before[k].consumer_id < id);
                    }
                }
            }
            assert(!goes_to(resends, id));
            assert forall|c: u64| #[trigger] addressed(after, c) <==> #[trigger] goes_to(
                resends.push(resend@),
                c,
            ) by {
                lemma_goes_to_push(resends, resend@, c);
                if addressed(before, c) {
                    let k = choose|k: int|
                        0 <= k < before.len() && (#[trigger] before[k]).consumer_id == c;
                    if k < i {
                        assert(after[k].consumer_id == c);
                    } else {
                        assert(after[k + 1].consumer_id == c);
                    }
                }
                if addressed(after, c) && c != id {
                    let k = choose|k: int|
                        0 <= k < after.len() && (#[trigger] after[k]).consumer_id == c;
                    if k < i {
                        assert(before[k].consumer_id == c);
                    } else {
                        assert(before[k - 1].consumer_id == c);
                    }
                }
                if c == id {
                    assert(after[i as int].consumer_id == c);
                }
            }
            assert forall|k: int| 0 <= k < after.len() implies (#[trigger] after[k]).message_ids
                == ids_for(resends.push(resend@), after[k].consumer_id) by {
                lemma_goes_to_push(resends, resend@, after[k].consumer_id);
                if k < i {
                    assert(before[k].consumer_id != id);
                } else if k > i {
                    assert(before[k - 1].consumer_id != id);
                } else {
                    assert(Seq::<MessageIdData>::empty() + ids =~= ids);
                }
            }
            assert forall|x: int, y: int| 0 <= x < y < after.len() implies (
            #[trigger] after[x]).consumer_id < (#[trigger] after[y]).consumer_id by {
                if x < i && y > i {
                    assert(before[x].consumer_id < before[y - 1].consumer_id);
                }
            }
        }
    }
}

/// Collects negative acknowledgements and asks the broker to redeliver when their time has come.
pub struct NackHandler {
    pending_nacks: Vec<MessageResend>,
    inbound_open: bool,
    unack_redelivery_delay: Option<Duration>,
    batch_messages: BatchTracker,
    clock: Clock,
    outgoing: VecDeque<Redelivery>,
}

#[verifier::ext_equal]
pub struct NackView {
    /// What waits for redelivery, in the order in which it was put there.
    pub pending: Seq<ResendView>,
    /// Whether negative acknowledgements may still come.
    pub inbound_open: bool,
    /// How long an entry waits. Without it, entries are redelivered on reconnect only.
    pub delay: Option<Duration>,
    pub batches: Batches,
    /// The clock by which entries wait.
    pub clock: Clock,
    /// What is to be sent next, in order.
    pub outgoing: Seq<RedeliveryView>,
}

impl NackView {
    /// The handler after a list of negative acknowledgements of one consumer, with the clock at
    /// `now`.
    pub open spec fn nacked(
        self,
        consumer_id: u64,
        messages: Seq<MessageData>,
        now: u128,
    ) -> NackView {
        let ids = crate::nack_batches::nacks_of(self.batches, messages);
        NackView {
            batches: crate::nack_batches::after_nacks(self.batches, messages),
            pending: if self.delay is Some && ids.len() > 0 {
                self.pending.push(
                    ResendView {
                        when: (now + self.delay->0.nanos()) as u128,
                        consumer_id,
                        message_ids: ids,
                    },
                )
            } else {
                self.pending
            },
            ..self
        }
    }

    /// `after` is the handler after the negative acknowledgements of `message`, at the time that
    /// its clock showed.
    pub open spec fn nacked_by_clock(self, message: NackMessage, after: NackView) -> bool {
        exists|now: u128|
            self.clock.shows(now) && after == #[trigger] self.nacked(
                message.consumer_id,
                message.message_ids@,
                now,
            )
    }

    /// The negative acknowledgements that an attempt to receive some brought.
    pub open spec fn received(self, polled: Poll<Option<NackMessage>>) -> Option<NackMessage> {
        match polled {
            Poll::Ready(Some(message)) if self.inbound_open => Some(message),
            _ => None,
        }
    }

    /// The handler after an attempt to receive negative acknowledgements.
    pub open spec fn polled(self, polled: Poll<Option<NackMessage>>) -> NackView {
        NackView {
            inbound_open: self.inbound_open && !(polled matches Poll::Ready(None)),
            ..self
        }
    }

    /// A resend is due when the clock shows `now`.
    pub open spec fn is_due(self, now: u128) -> bool {
        self.pending.len() > 0 && due(self.pending, 0).when <= now
    }

    /// The handler after `n` resends have left.
    pub open spec fn after_departures(self, n: nat) -> NackView {
        NackView { pending: waiting_after(self.pending, n), ..self }
    }

    /// `after` is the handler, and `groups` what it hands out, after every resend left whose time
    /// had come: its clock was read before each departure, and at last showed that the next resend
    /// is not due.
    pub open spec fn collected(self, after: NackView, groups: Seq<RedeliveryView>) -> bool {
        exists|readings: Seq<u128>, n: nat|
            {
                &&& #[trigger] leaves(self.pending, readings, n)
                &&& forall|k: int|
                    0 <= k < readings.len() ==> self.clock.shows(#[trigger] readings[k])
                &&& after == self.after_departures(n)
                &&& groups_of(departed(self.pending, n), groups)
            }
    }
}

/// What happened to the handler.
pub enum NackEvent {
    /// It is polled.
    Woken,
    /// An attempt to receive a negative acknowledgement; `Ready(None)` says that none will come.
    Inbound(Poll<Option<NackMessage>>),
    /// A look at the tick timer; `Ready(None)` says that it ended.
    Tick(Poll<Option<()>>),
    /// An attempt to send a redelivery.
    Sent(Result<(), ConnectionError>),
}

/// What the handler wants done.
pub enum NackAction {
    /// Try to receive a negative acknowledgement.
    PollInbound,
    /// Look at the tick timer.
    PollTick,
    /// Send this redelivery.
    Send(Redelivery),
    /// Return this from the poll.
    Return(Poll<Result<(), ()>>),
}

/// What the handler asks for when it looks at what is to be sent: that the first redelivery be sent,
/// or, if there is none, for the next tick.
pub open spec fn hands_out(before: NackView, after: NackView, action: NackAction) -> bool {
    if before.outgoing.len() == 0 {
        after == before && action == NackAction::PollTick
    } else {
        &&& action matches NackAction::Send(redelivery)
        &&& redelivery@ == before.outgoing[0]
        &&& after == (NackView { outgoing: before.outgoing.drop_first(), ..before })
    }
}

/// What one step of the handler does to it, and what it asks for.
pub open spec fn nack_step(
    before: NackView,
    event: NackEvent,
    after: NackView,
    action: NackAction,
) -> bool {
    match event {
        NackEvent::Woken => after == before && action == (if before.inbound_open {
            NackAction::PollInbound
        } else {
            NackAction::PollTick
        }),
        NackEvent::Inbound(polled) => match before.received(polled) {
            Some(message) => action == NackAction::PollInbound && before.nacked_by_clock(
                message,
                after,
            ),
            None => action == NackAction::PollTick && after == before.polled(polled),
        },
        NackEvent::Tick(Poll::Ready(Some(_))) => exists|
            collected: NackView,
            groups: Seq<RedeliveryView>,
        |
            #[trigger] before.collected(collected, groups) && hands_out(
                NackView { outgoing: before.outgoing + groups, ..collected },
                after,
                action,
            ),
        NackEvent::Tick(Poll::Ready(None)) => after == before && action == NackAction::Return(
            Poll::Ready(Err(())),
        ),
        NackEvent::Tick(Poll::Pending) => after == before && action == NackAction::Return(
            if !before.inbound_open && before.pending.len() == 0 && before.outgoing.len() == 0 {
                Poll::Ready(Ok(()))
            } else {
                Poll::Pending
            },
        ),
        NackEvent::Sent(Ok(_)) => hands_out(before, after, action),
        NackEvent::Sent(Err(_)) => after == (NackView { outgoing: seq![], ..before }) && action
            == NackAction::Return(Poll::Ready(Err(()))),
    }
}

impl View for NackHandler {
    type V = NackView;

    closed spec fn view(&self) -> NackView {
        NackView {
            pending: resend_views(self.pending_nacks@),
            inbound_open: self.inbound_open,
            delay: self.unack_redelivery_delay,
            batches: self.batch_messages@,
            clock: self.clock,
            outgoing: redelivery_views(self.outgoing@),
        }
    }
}

impl NackHandler {
    pub closed spec fn wf(&self) -> bool {
        self.batch_messages.wf()
    }

    /// A handler that nothing was reported to. Entries wait for `redelivery_delay`.
    pub fn new(redelivery_delay: Option<Duration>) -> (r: NackHandler)
        ensures
            r.wf(),
            r@ == (NackView {
                pending: seq![],
                inbound_open: true,
                delay: redelivery_delay,
                batches: Batches::empty(),
                clock: r@.clock,
                outgoing: seq![],
            }),
            r@.clock.started_now(),
    {
        let r = NackHandler {
            pending_nacks: Vec::new(),
            inbound_open: true,
            unack_redelivery_delay: redelivery_delay,
            batch_messages: BatchTracker::new(),
            clock: Clock::new(),
            outgoing: VecDeque::new(),
        };
        assert(r@.pending =~= seq![]);
        assert(r@.outgoing =~= seq![]);
        r
    }

    /// Whether each message of a list lies within its batch when its turn comes.
    pub fn accepts_all(&self, messages: &Vec<MessageData>) -> (r: bool)
        requires
            self.wf(),
        ensures
            r == crate::nack_batches::all_in_bounds(self@.batches, messages@),
    {
        self.batch_messages.accepts_all(messages)
    }

    /// Records a negative acknowledgement. Returns the id of the entry to redeliver, unless that
    /// was asked for already.
    pub fn should_nack(&mut self, message_data: MessageData) -> (r: Option<MessageIdData>)
        requires
            old(self).wf(),
            crate::nack_batches::in_bounds(old(self)@.batches, message_data),
        ensures
            final(self).wf(),
            final(self)@ == (NackView {
                batches: crate::nack_batches::after_nack(old(self)@.batches, message_data),
                ..old(self)@
            }),
            r == crate::nack_batches::nack_of(old(self)@.batches, message_data),
    {
        self.batch_messages.should_nack(message_data)
    }

    /// Records the negative acknowledgements of a consumer, with the clock at `now`.
    pub fn handle_nack_at(&mut self, message: NackMessage, now: u128)
        requires
            old(self).wf(),
            crate::nack_batches::all_in_bounds(old(self)@.batches, message.message_ids@),
            old(self)@.delay is Some ==> now + old(self)@.delay->0.nanos() <= u128::MAX,
        ensures
            final(self).wf(),
            final(self)@ == old(self)@.nacked(message.consumer_id, message.message_ids@, now),
    {
        let ids = self.batch_messages.should_nack_all(&message.message_ids);
        match self.unack_redelivery_delay {
            Some(delay) => {
                if ids.len() > 0 {
                    self.pending_nacks.push(
                        MessageResend {
                            when: now + delay.as_nanos(),
                            consumer_id: message.consumer_id,
                            message_ids: ids,
                        },
                    );
                }
            },
            None => {},
        }
        assert(self@.pending =~= old(self)@.nacked(
            message.consumer_id,
            message.message_ids@,
            now,
        ).pending);
    }

    /// Records the negative acknowledgements of a consumer, at the time that the clock shows.
    pub fn handle_nack(&mut self, message: NackMessage)
        requires
            old(self).wf(),
            crate::nack_batches::all_in_bounds(old(self)@.batches, message.message_ids@),
        ensures
            final(self).wf(),
            old(self)@.nacked_by_clock(message, final(self)@),
    {
        let now: u128 = self.clock.reading();
        self.handle_nack_at(message, now);
    }

    fn find_earliest(&self) -> (r: usize)
        requires
            self.pending_nacks@.len() > 0,
        ensures
            r == earliest(resend_views(self.pending_nacks@)),
            r < self.pending_nacks@.len(),
    {
        let ghost all = resend_views(self.pending_nacks@);
        let mut e: usize = 0;
        let mut i: usize = 1;
        while i < self.pending_nacks.len()
            invariant
                1 <= i <= self.pending_nacks@.len(),
                all == resend_views(self.pending_nacks@),
                e == earliest(all.take(i as int)),
                e < i,
            decreases self.pending_nacks@.len() - i,
        {
            assert(all.take(i + 1).drop_last() =~= all.take(i as int));
            if self.pending_nacks[i].when < self.pending_nacks[e].when {
                e = i;
            }
            i = i + 1;
        }
        assert(all.take(i as int) =~= all);
        e
    }

    /// Takes out the resend that is due first, if its time has come when the clock shows `now`.
    pub fn next_ready_resend_at(&mut self, now: u128) -> (r: Option<MessageResend>)
        requires
            old(self).wf(),
        ensures
            final(self).wf(),
            match r {
                Some(resend) => {
                    &&& old(self)@.is_due(now)
                    &&& resend@ == due(old(self)@.pending, 0)
                    &&& final(self)@ == old(self)@.after_departures(1)
                },
                None => !old(self)@.is_due(now) && final(self)@ == old(self)@,
            },
    {
        if self.pending_nacks.len() == 0 {
            return None;
        }
        let e: usize = self.find_earliest();
        let ghost before = resend_views(self.pending_nacks@);
        assert(waiting_after(before, 0) == before);
        if self.pending_nacks[e].when <= now {
            let resend = self.pending_nacks.remove(e);
            assert(resend_views(self.pending_nacks@) =~= before.remove(e as int));
            assert(waiting_after(before, 1) == before.remove(e as int)) by {
                reveal_with_fuel(waiting_after, 2);
            }
            Some(resend)
        } else {
            None
        }
    }

    /// Takes out the resend that is due first, if its time has come.
    pub fn next_ready_resend(&mut self) -> (r: Option<MessageResend>)
        requires
            old(self).wf(),
        ensures
            final(self).wf(),
            match r {
                Some(resend) => {
                    &&& exists|now: u128|
                        old(self)@.clock.shows(now) && #[trigger] old(self)@.is_due(now)
                    &&& resend@ == due(old(self)@.pending, 0)
                    &&& final(self)@ == old(self)@.after_departures(1)
                },
                None => {
                    &&& exists|now: u128|
                        old(self)@.clock.shows(now) && !#[trigger] old(self)@.is_due(now)
                    &&& final(self)@ == old(self)@
                },
            },
    {
        let now: u128 = self.clock.reading();
        self.next_ready_resend_at(now)
    }

    /// Takes note of an attempt to receive negative acknowledgements.
    pub fn next_inbound(&mut self, polled: Poll<Option<NackMessage>>) -> (r: Option<NackMessage>)
        requires
            old(self).wf(),
        ensures
            final(self).wf(),
            final(self)@ == old(self)@.polled(polled),
            r == old(self)@.received(polled),
    {
        if self.inbound_open {
            match polled {
                Poll::Ready(Some(message)) => Some(message),
                Poll::Pending => None,
                Poll::Ready(None) => {
                    self.inbound_open = false;
                    None
                },
            }
        } else {
            None
        }
    }

    /// Moves the resend that is due first to the redelivery for its consumer, if its time has come
    /// when the clock shows `now`. Since the handler was `before`, `n` resends have left.
    fn move_ready(
        &mut self,
        groups: &mut Vec<Redelivery>,
        now: u128,
        Ghost(before): Ghost<NackView>,
        Ghost(n): Ghost<nat>,
    ) -> (moved: bool)
        requires
            old(self).wf(),
            n < before.pending.len(),
            old(self)@ == before.after_departures(n),
            groups_of(departed(before.pending, n), redelivery_views(old(groups)@)),
        ensures
            final(self).wf(),
            moved == (due(before.pending, n).when <= now),
            moved ==> final(self)@ == before.after_departures(n + 1) && groups_of(
                departed(before.pending, n + 1),
                redelivery_views(final(groups)@),
            ),
            !moved ==> final(self)@ == old(self)@ && final(groups)@ == old(groups)@,
    {
        let ghost pending = before.pending;
        proof {
            lemma_waiting_len(pending, n);
        }
        assert(self@.pending == waiting_after(pending, n));
        assert(due(self@.pending, 0) == due(pending, n));
        match self.next_ready_resend_at(now) {
            Some(resend) => {
                add_to_groups(groups, resend, Ghost(departed(pending, n)));
                proof {
                    assert(waiting_after(waiting_after(pending, n), 1) == waiting_after(
                        pending,
                        n + 1,
                    )) by {
                        reveal_with_fuel(waiting_after, 2);
                    }
                    assert(departed(pending, n).push(resend@) =~= departed(pending, n + 1));
                }
                true
            },
            None => false,
        }
    }

    /// Takes out every resend whose time has come when the clock shows `now`, and puts together
    /// what goes to the same consumer.
    pub fn collect_ready_at(&mut self, now: u128) -> (r: Vec<Redelivery>)
        requires
            old(self).wf(),
        ensures
            final(self).wf(),
            final(self)@ == (NackView {
                pending: not_ready(old(self)@.pending, now),
                ..old(self)@
            }),
            groups_of(
                departed(old(self)@.pending, ready(old(self)@.pending, now).len()),
                redelivery_views(r@),
            ),
    {
        let mut groups: Vec<Redelivery> = Vec::new();
        let ghost before = self@;
        let ghost mut n: nat = 0;
        assert(redelivery_views(groups@) =~= seq![]);
        assert(departed(before.pending, 0) =~= seq![]);
        while self.pending_nacks.len() > 0
            invariant
                self.wf(),
                n <= before.pending.len(),
                self.pending_nacks@.len() == before.pending.len() - n,
                self@ == before.after_departures(n),
                groups_of(departed(before.pending, n), redelivery_views(groups@)),
                forall|k: nat| k < n ==> (#[trigger] due(before.pending, k)).when <= now,
            ensures
                n < before.pending.len() ==> now < due(before.pending, n).when,
            decreases self.pending_nacks@.len(),
        {
            if !self.move_ready(&mut groups, now, Ghost(before), Ghost(n)) {
                break;
            }
            proof {
                n = n + 1;
                lemma_waiting_len(before.pending, n);
                assert(self@.pending.len() == before.pending.len() - n);
            }
        }
        proof {
            lemma_departures_at(before.pending, now, n);
        }
        groups
    }

    /// Takes out every resend whose time has come, and puts together what goes to the same
    /// consumer.
    pub fn collect_ready(&mut self) -> (r: Vec<Redelivery>)
        requires
            old(self).wf(),
        ensures
            final(self).wf(),
            old(self)@.collected(final(self)@, redelivery_views(r@)),
    {
        let mut groups: Vec<Redelivery> = Vec::new();
        let ghost before = self@;
        let ghost pending = self@.pending;
        let ghost mut readings: Seq<u128> = seq![];
        let ghost mut n: nat = 0;
        assert(redelivery_views(groups@) =~= seq![]);
        assert(departed(pending, 0) =~= seq![]);
        while self.pending_nacks.len() > 0
            invariant_except_break
                readings.len() == n,
            invariant
                self.wf(),
                pending == before.pending,
                n <= pending.len(),
                self.pending_nacks@.len() == pending.len() - n,
                self@ == before.after_departures(n),
                groups_of(departed(pending, n), redelivery_views(groups@)),
                forall|k: int| 0 <= k < n ==> due(pending, k as nat).when <= #[trigger] readings[k],
                forall|k: int|
                    0 <= k < readings.len() ==> before.clock.shows(#[trigger] readings[k]),
            ensures
                leaves(pending, readings, n),
            decreases self.pending_nacks@.len(),
        {
            let now: u128 = self.clock.reading();
            proof {
                readings = readings.push(now);
            }
            if !self.move_ready(&mut groups, now, Ghost(before), Ghost(n)) {
                break;
            }
            proof {
                n = n + 1;
                lemma_waiting_len(pending, n);
                assert(self@.pending.len() == pending.len() - n);
            }
        }
        groups
    }

    /// Puts redeliveries behind what is to be sent.
    fn put_out(&mut self, groups: Vec<Redelivery>)
        requires
            old(self).wf(),
        ensures
            final(self).wf(),
            final(self)@ == (NackView {
                outgoing: old(self)@.outgoing + redelivery_views(groups@),
                ..old(self)@
            }),
    {
        let ghost before = self@;
        let ghost all = redelivery_views(groups@);
        let ghost list = groups@;
        assert(before.outgoing + all.take(0) =~= before.outgoing);
        for group in it: groups
            invariant
                self.wf(),
                it.seq() == list,
                all == redelivery_views(list),
                self@ == (NackView {
                    outgoing: before.outgoing + all.take(it.index() as int),
                    ..before
                }),
        {
            let ghost was = self@;
            assert(all[it.index() as int] == group@);
            self.outgoing.push_back(group);
            assert(self@.outgoing =~= was.outgoing.push(group@));
            assert(before.outgoing + all.take(it.index() as int + 1) =~= was.outgoing.push(group@));
        }
        assert(all.take(all.len() as int) =~= all);
    }

    /// Asks for the first redelivery to be sent, or for the next tick if there is none.
    fn hand_out(&mut self) -> (action: NackAction)
        requires
            old(self).wf(),
        ensures
            final(self).wf(),
            hands_out(old(self)@, final(self)@, action),
    {
        let ghost before = self@;
        match self.outgoing.pop_front() {
            Some(redelivery) => {
                assert(before.outgoing[0] == redelivery@);
                assert(self@.outgoing =~= before.outgoing.drop_first());
                NackAction::Send(redelivery)
            },
            None => {
                assert(self@ =~= before);
                NackAction::PollTick
            },
        }
    }

    /// One step of the handler: takes note of what happened and says what to do next. The answer
    /// `Return` ends the poll; any other is followed by the next step.
    pub fn poll(&mut self, event: NackEvent) -> (action: NackAction)
        requires
            old(self).wf(),
            event matches NackEvent::Inbound(Poll::Ready(Some(message))) ==> old(
                self,
            )@.inbound_open ==> crate::nack_batches::all_in_bounds(
                old(self)@.batches,
                message.message_ids@,
            ),
        ensures
            final(self).wf(),
            nack_step(old(self)@, event, final(self)@, action),
    {
        match event {
            NackEvent::Woken => if self.inbound_open {
                NackAction::PollInbound
            } else {
                NackAction::PollTick
            },
            NackEvent::Inbound(polled) => match self.next_inbound(polled) {
                Some(message) => {
                    self.handle_nack(message);
                    NackAction::PollInbound
                },
                None => NackAction::PollTick,
            },
            NackEvent::Tick(Poll::Ready(Some(_))) => {
                let groups = self.collect_ready();
                self.put_out(groups);
                self.hand_out()
            },
            NackEvent::Tick(Poll::Pending) => if !self.inbound_open && self.pending_nacks.len()
                == 0 && self.outgoing.len() == 0 {
                NackAction::Return(Poll::Ready(Ok(())))
            } else {
                NackAction::Return(Poll::Pending)
            },
            NackEvent::Tick(Poll::Ready(None)) => NackAction::Return(Poll::Ready(Err(()))),
            NackEvent::Sent(Ok(_)) => self.hand_out(),
            NackEvent::Sent(Err(_)) => {
                self.outgoing = VecDeque::new();
                assert(self@.outgoing =~= seq![]);
                NackAction::Return(Poll::Ready(Err(())))
            },
        }
    }
}

/// Resends leave in the order of their time.
pub proof fn resends_leave_in_time_order(pending: Seq<ResendView>, m: nat, n: nat)
    requires
        m <= n < pending.len(),
    ensures
        due(pending, m).when <= due(pending, n).when,
    decreases n,
{
    if m < n {
        let k = (n - 1) as nat;
        resends_leave_in_time_order(pending, m, k);
        let before = waiting_after(pending, k);
        lemma_waiting_len(pending, k);
        lemma_waiting_len(pending, n);
        lemma_earliest(before);
        lemma_earliest(waiting_after(pending, n));
        let after = waiting_after(pending, n);
        let e = earliest(after);
        assert(after[e] == before[if e < earliest(before) {
            e
        } else {
            e + 1
        }]);
    }
}

/// Of resends that leave one by one none is lost and none is made up: each that was pending has
/// left or still waits.
pub proof fn resends_are_conserved(pending: Seq<ResendView>, n: nat)
    requires
        n <= pending.len(),
    ensures
        pending.to_multiset() == departed(pending, n).to_multiset().add(
            waiting_after(pending, n).to_multiset(),
        ),
        waiting_after(pending, n).len() == pending.len() - n,
    decreases n,
{
    broadcast use vstd::seq_lib::group_to_multiset_ensures;
    lemma_waiting_len(pending, n);
    if n == 0 {
        assert(departed(pending, 0) =~= seq![]);
        assert(pending.to_multiset() =~= departed(pending, n).to_multiset().add(
            waiting_after(pending, n).to_multiset(),
        ));
    } else {
        let m = (n - 1) as nat;
        resends_are_conserved(pending, m);
        let before = waiting_after(pending, m);
        lemma_earliest(before);
        assert(departed(pending, n) =~= departed(pending, m).push(due(pending, m)));
        assert(before.remove(earliest(before)).to_multiset() =~= before.to_multiset().remove(
            before[earliest(before)],
        ));
        assert(before.to_multiset().count(due(pending, m)) > 0);
        assert(pending.to_multiset() =~= departed(pending, n).to_multiset().add(
            waiting_after(pending, n).to_multiset(),
        ));
    }
}

/// With a clock that does not run backwards, what leaves is what is due: at the last reading the
/// time of each resend that left has come, and the time of each that still waits has not.
pub proof fn due_resends_leave(pending: Seq<ResendView>, readings: Seq<u128>, n: nat)
    requires
        leaves(pending, readings, n),
        forall|i: int, j: int|
            0 <= i <= j < readings.len() ==> #[trigger] readings[i] <= #[trigger] readings[j],
    ensures
        forall|k: int|
            0 <= k < n ==> (#[trigger] departed(pending, n)[k]).when <= readings.last(),
        forall|k: int|
            0 <= k < waiting_after(pending, n).len() ==> readings.last() < (
            #[trigger] waiting_after(pending, n)[k]).when,
{
    lemma_waiting_len(pending, n);
    if n < pending.len() {
        lemma_earliest(waiting_after(pending, n));
    }
    assert forall|k: int| 0 <= k < n implies (#[trigger] departed(pending, n)[k]).when
        <= readings.last() by {
        assert(due(pending, k as nat).when <= readings[k]);
        assert(readings[k] <= readings[readings.len() - 1]);
    }
}

/// If every reading of the clock at a tick lies between `start` and `end`, then everything that was
/// due at `start` leaves, and nothing leaves that is not due at `end`. With the clock at one time
/// throughout, exactly what is due then leaves, and exactly the rest waits, in its order.
pub proof fn tick_redelivers_what_is_due(
    pending: Seq<ResendView>,
    readings: Seq<u128>,
    n: nat,
    start: u128,
    end: u128,
)
    requires
        leaves(pending, readings, n),
        forall|k: int| 0 <= k < readings.len() ==> start <= #[trigger] readings[k] <= end,
    ensures
        forall|k: int| 0 <= k < n ==> (#[trigger] departed(pending, n)[k]).when <= end,
        forall|k: int|
            0 <= k < waiting_after(pending, n).len() ==> start < (#[trigger] waiting_after(
                pending,
                n,
            )[k]).when,
        start == end ==> {
            &&& waiting_after(pending, n) == not_ready(pending, start)
            &&& n == ready(pending, start).len()
        },
{
    lemma_waiting_len(pending, n);
    if n < pending.len() {
        lemma_earliest(waiting_after(pending, n));
        assert(start <= readings[n as int]);
    }
    assert forall|k: int| 0 <= k < n implies (#[trigger] departed(pending, n)[k]).when <= end by {
        assert(due(pending, k as nat).when <= readings[k]);
    }
    if start == end {
        assert forall|k: nat| k < n implies (#[trigger] due(pending, k)).when <= start by {
            assert(due(pending, k as nat).when <= readings[k as int]);
        }
        lemma_departures_at(pending, start, n);
    }
}

/// What is still to be sent, the redelivery that was just asked for included.
pub open spec fn to_send(after: NackView, action: NackAction) -> Seq<RedeliveryView> {
    match action {
        NackAction::Send(redelivery) => seq![redelivery@] + after.outgoing,
        _ => after.outgoing,
    }
}

/// Redeliveries are sent in order, one by one, each after the one before it was sent, and the next
/// tick is asked for when all are. The first that fails ends the handler, and nothing more is sent.
pub proof fn redeliveries_are_sent_in_turn(
    before: NackView,
    sent: Result<(), ConnectionError>,
    after: NackView,
    action: NackAction,
)
    requires
        nack_step(before, NackEvent::Sent(sent), after, action),
    ensures
        sent is Ok ==> to_send(after, action) == before.outgoing,
        sent is Ok ==> (action is Send <==> before.outgoing.len() > 0),
        sent is Ok && before.outgoing.len() == 0 ==> action == NackAction::PollTick,
        sent is Err ==> to_send(after, action).len() == 0 && action == NackAction::Return(
            Poll::Ready(Err(())),
        ),
        after.pending == before.pending,
{
    if sent is Ok && before.outgoing.len() > 0 {
        assert(seq![before.outgoing[0]] + before.outgoing.drop_first() =~= before.outgoing);
    }
}

/// What a tick collects, and that all of it is to be sent.
proof fn lemma_tick(before: NackView, after: NackView, action: NackAction) -> (r: (
    NackView,
    Seq<RedeliveryView>,
))
    requires
        nack_step(before, NackEvent::Tick(Poll::Ready(Some(()))), after, action),
    ensures
        before.collected(r.0, r.1),
        after == (NackView { outgoing: after.outgoing, ..r.0 }),
        to_send(after, action) == before.outgoing + r.1,
{
    let (collected, groups) = choose|collected: NackView, groups: Seq<RedeliveryView>|
        #[trigger] before.collected(collected, groups) && hands_out(
            NackView { outgoing: before.outgoing + groups, ..collected },
            after,
            action,
        );
    let all = before.outgoing + groups;
    if all.len() > 0 {
        assert(seq![all[0]] + all.drop_first() =~= all);
    }
    (collected, groups)
}

/// A tick with the clock at `now` sends exactly what is due then, one request for each consumer, and
/// lets exactly the rest wait.
pub proof fn tick_sends_exactly_what_is_due(
    before: NackView,
    after: NackView,
    action: NackAction,
    now: u128,
)
    requires
        nack_step(before, NackEvent::Tick(Poll::Ready(Some(()))), after, action),
        before.outgoing.len() == 0,
        forall|t: u128| #[trigger] before.clock.shows(t) ==> t == now,
    ensures
        after == (NackView {
            pending: not_ready(before.pending, now),
            outgoing: after.outgoing,
            ..before
        }),
        groups_of(
            departed(before.pending, ready(before.pending, now).len()),
            to_send(after, action),
        ),
{
    let (collected, groups) = lemma_tick(before, after, action);
    let (readings, n) = choose|readings: Seq<u128>, n: nat|
        {
            &&& #[trigger] leaves(before.pending, readings, n)
            &&& forall|k: int|
                0 <= k < readings.len() ==> before.clock.shows(#[trigger] readings[k])
            &&& collected == before.after_departures(n)
            &&& groups_of(departed(before.pending, n), groups)
        };
    assert forall|k: int| 0 <= k < readings.len() implies now <= #[trigger] readings[k] <= now by {
        assert(before.clock.shows(readings[k]));
    }
    tick_redelivers_what_is_due(before.pending, readings, n, now, now);
    assert(before.outgoing + groups =~= groups);
}

/// The resends that leave with the clock at `now` are those that are ready then, each as often as
/// it was put there.
pub proof fn ready_resends_leave(pending: Seq<ResendView>, now: u128)
    ensures
        ready(pending, now).len() <= pending.len(),
        waiting_after(pending, ready(pending, now).len()) == not_ready(pending, now),
        departed(pending, ready(pending, now).len()).to_multiset() == ready(
            pending,
            now,
        ).to_multiset(),
{
    let n = lemma_count_ready(pending, now, pending.len());
    lemma_departures_at(pending, now, n);
    resends_are_conserved(pending, n);
    lemma_ready_or_not(pending, now);
    let left = departed(pending, n).to_multiset();
    let due_now = ready(pending, now).to_multiset();
    let rest = not_ready(pending, now).to_multiset();
    assert(left.add(rest) == due_now.add(rest));
    assert forall|r: ResendView| left.count(r) == #[trigger] due_now.count(r) by {
        assert(left.add(rest).count(r) == due_now.add(rest).count(r));
    }
    assert(left =~= due_now);
}

/// How many of the first `limit` resends leave before one that is not ready at `now`.
proof fn lemma_count_ready(pending: Seq<ResendView>, now: u128, limit: nat) -> (n: nat)
    requires
        limit <= pending.len(),
    ensures
        n <= limit,
        forall|k: nat| k < n ==> (#[trigger] due(pending, k)).when <= now,
        n < limit ==> now < due(pending, n).when,
    decreases limit,
{
    if limit == 0 {
        0
    } else {
        let m = lemma_count_ready(pending, now, (limit - 1) as nat);
        if m == limit - 1 && due(pending, m).when <= now {
            limit
        } else {
            m
        }
    }
}

proof fn lemma_ready_or_not(pending: Seq<ResendView>, now: u128)
    ensures
        pending.to_multiset() == ready(pending, now).to_multiset().add(
            not_ready(pending, now).to_multiset(),
        ),
    decreases pending.len(),
{
    broadcast use vstd::seq_lib::group_to_multiset_ensures;
    reveal(Seq::filter);
    if pending.len() == 0 {
        assert(pending.to_multiset() =~= ready(pending, now).to_multiset().add(
            not_ready(pending, now).to_multiset(),
        ));
    } else {
        let front = pending.drop_last();
        let last = pending.last();
        assert(pending =~= front.push(last));
        lemma_ready_or_not(front, now);
        crate::text_list::lemma_filter_push(front, last, |r: ResendView| r.when <= now);
        crate::text_list::lemma_filter_push(front, last, |r: ResendView| r.when > now);
        assert(pending.to_multiset() =~= ready(pending, now).to_multiset().add(
            not_ready(pending, now).to_multiset(),
        ));
    }
}

/// Entries that were negatively acknowledged at `now` are not redelivered before their delay is
/// over.
pub proof fn entries_wait_their_delay(
    handler: NackView,
    consumer_id: u64,
    messages: Seq<MessageData>,
    now: u128,
    readings: Seq<u128>,
    n: nat,
    k: int,
)
    requires
        handler.delay is Some,
        now + handler.delay->0.nanos() <= u128::MAX,
        crate::nack_batches::nacks_of(handler.batches, messages).len() > 0,
        leaves(handler.nacked(consumer_id, messages, now).pending, readings, n),
        0 <= k < n,
        departed(handler.nacked(consumer_id, messages, now).pending, n)[k] == handler.nacked(
            consumer_id,
            messages,
            now,
        ).pending.last(),
    ensures
        readings[k] >= now + handler.delay->0.nanos(),
{
    assert(due(handler.nacked(consumer_id, messages, now).pending, k as nat).when <= readings[k]);
}

/// Putting resends together neither loses an entry nor adds one: an entry goes to a consumer
/// exactly if some resend has it for that consumer.
pub proof fn groups_keep_entries(resends: Seq<ResendView>, consumer_id: u64, id: MessageIdData)
    ensures
        ids_for(resends, consumer_id).contains(id) <==> exists|k: int|
            0 <= k < resends.len() && (#[trigger] resends[k]).consumer_id == consumer_id
                && resends[k].message_ids.contains(id),
    decreases resends.len(),
{
    let some = exists|k: int|
        0 <= k < resends.len() && (#[trigger] resends[k]).consumer_id == consumer_id
            && resends[k].message_ids.contains(id);
    if resends.len() > 0 {
        let front = resends.drop_last();
        let last = resends.last();
        groups_keep_entries(front, consumer_id, id);
        let a = ids_for(front, consumer_id);
        let b = last.message_ids;
        assert((a + b).contains(id) <==> a.contains(id) || b.contains(id)) by {
            if a.contains(id) {
                let i = choose|i: int| 0 <= i < a.len() && a[i] == id;
                assert((a + b)[i] == id);
            }
            if b.contains(id) {
                let i = choose|i: int| 0 <= i < b.len() && b[i] == id;
                assert((a + b)[a.len() + i] == id);
            }
        }
        if ids_for(resends, consumer_id).contains(id) {
            if a.contains(id) {
                let k = choose|k: int|
                    0 <= k < front.len() && (#[trigger] front[k]).consumer_id == consumer_id
                        && front[k].message_ids.contains(id);
                assert(resends[k] == front[k]);
            } else {
                assert(resends[resends.len() - 1] == last);
            }
        }
        if some {
            let k = choose|k: int|
                0 <= k < resends.len() && (#[trigger] resends[k]).consumer_id == consumer_id
                    && resends[k].message_ids.contains(id);
            if k < front.len() {
                assert(front[k] == resends[k]);
            }
        }
    }
}

/// A redelivery asks for entry `id` of consumer `consumer_id`.
pub open spec fn asks_for(
    groups: Seq<RedeliveryView>,
    consumer_id: u64,
    id: MessageIdData,
) -> bool {
    exists|i: int|
        0 <= i < groups.len() && (#[trigger] groups[i]).consumer_id == consumer_id
            && groups[i].message_ids.contains(id)
}

/// A resend for consumer `consumer_id` with entry `id` waits, and its time comes at `when`.
pub open spec fn waits(
    pending: Seq<ResendView>,
    when: u128,
    consumer_id: u64,
    id: MessageIdData,
) -> bool {
    exists|i: int|
        0 <= i < pending.len() && (#[trigger] pending[i]).when == when && pending[i].consumer_id
            == consumer_id && pending[i].message_ids.contains(id)
}

/// An entry that is to be redelivered is asked for at the first tick at which the clock shows that
/// its time has come; while the clock shows that it has not, the entry waits on.
pub proof fn waiting_entries_are_asked_for(
    pending: Seq<ResendView>,
    readings: Seq<u128>,
    n: nat,
    groups: Seq<RedeliveryView>,
    when: u128,
    consumer_id: u64,
    id: MessageIdData,
)
    requires
        leaves(pending, readings, n),
        groups_of(departed(pending, n), groups),
        waits(pending, when, consumer_id, id),
    ensures
        (forall|k: int| 0 <= k < readings.len() ==> when <= #[trigger] readings[k]) ==> asks_for(
            groups,
            consumer_id,
            id,
        ),
        (forall|k: int| 0 <= k < readings.len() ==> #[trigger] readings[k] < when) ==> waits(
            waiting_after(pending, n),
            when,
            consumer_id,
            id,
        ),
        asks_for(groups, consumer_id, id) || waits(
            waiting_after(pending, n),
            when,
            consumer_id,
            id,
        ),
{
    broadcast use vstd::seq_lib::group_to_multiset_ensures;
    let i = choose|i: int|
        0 <= i < pending.len() && (#[trigger] pending[i]).when == when && pending[i].consumer_id
            == consumer_id && pending[i].message_ids.contains(id);
    let resend = pending[i];
    let left = departed(pending, n);
    let rest = waiting_after(pending, n);
    resends_are_conserved(pending, n);
    assert(pending.contains(resend));
    assert(pending.to_multiset().count(resend) > 0);
    assert(left.to_multiset().count(resend) > 0 || rest.to_multiset().count(resend) > 0);
    if left.contains(resend) {
        let k = choose|k: int| 0 <= k < left.len() && left[k] == resend;
        assert(due(pending, k as nat).when <= readings[k]);
        assert(goes_to(left, consumer_id));
        groups_keep_entries(left, consumer_id, id);
        assert(ids_for(left, consumer_id).contains(id));
        assert(addressed(groups, consumer_id));
        let g = choose|g: int| 0 <= g < groups.len() && (#[trigger] groups[g]).consumer_id
            == consumer_id;
        assert(groups[g].message_ids.contains(id));
    } else {
        assert(rest.contains(resend));
        let k = choose|k: int| 0 <= k < rest.len() && rest[k] == resend;
        assert(waits(rest, when, consumer_id, id));
        lemma_waiting_len(pending, n);
        lemma_earliest(rest);
        assert(readings[n as int] < due(pending, n).when);
        assert(due(pending, n).when <= rest[k].when);
    }
}

/// No step loses an entry that waits: it waits on, or is to be sent.
pub proof fn waiting_entries_are_kept(
    before: NackView,
    event: NackEvent,
    after: NackView,
    action: NackAction,
    when: u128,
    consumer_id: u64,
    id: MessageIdData,
)
    requires
        nack_step(before, event, after, action),
        waits(before.pending, when, consumer_id, id),
    ensures
        waits(after.pending, when, consumer_id, id) || asks_for(
            to_send(after, action),
            consumer_id,
            id,
        ),
{
    let i = choose|i: int|
        0 <= i < before.pending.len() && (#[trigger] before.pending[i]).when == when
            && before.pending[i].consumer_id == consumer_id
            && before.pending[i].message_ids.contains(id);
    match event {
        NackEvent::Tick(Poll::Ready(Some(_))) => {
            let (collected, groups) = lemma_tick(before, after, action);
            let (readings, n) = choose|readings: Seq<u128>, n: nat|
                {
                    &&& #[trigger] leaves(before.pending, readings, n)
                    &&& forall|k: int|
                        0 <= k < readings.len() ==> before.clock.shows(#[trigger] readings[k])
                    &&& collected == before.after_departures(n)
                    &&& groups_of(departed(before.pending, n), groups)
                };
            waiting_entries_are_asked_for(
                before.pending,
                readings,
                n,
                groups,
                when,
                consumer_id,
                id,
            );
            if asks_for(groups, consumer_id, id) {
                let g = choose|g: int|
                    0 <= g < groups.len() && (#[trigger] groups[g]).consumer_id == consumer_id
                        && groups[g].message_ids.contains(id);
                assert((before.outgoing + groups)[before.outgoing.len() + g] == groups[g]);
                assert(asks_for(to_send(after, action), consumer_id, id));
            }
        },
        _ => {
            assert(after.pending[i] == before.pending[i]);
        },
    }
}

/// A message that is dropped without being acknowledged or negatively acknowledged is resent: when
/// the report of the drop comes in, its entry waits from then for the delay. An entry of a batch
/// that was asked for already is not asked for again: it brings the whole batch back.
pub proof fn dropped_messages_are_resent(
    before: NackView,
    report: NackMessage,
    message: MessageData,
    after: NackView,
    action: NackAction,
) -> (now: u128)
    requires
        report.message_ids@ == seq![message],
        nack_step(before, NackEvent::Inbound(Poll::Ready(Some(report))), after, action),
        before.inbound_open,
        before.delay is Some,
        crate::nack_batches::nack_of(before.batches, message) is Some,
    ensures
        before.clock.shows(now),
        waits(
            after.pending,
            (now + before.delay->0.nanos()) as u128,
            report.consumer_id,
            message.id.entry(),
        ),
        now + before.delay->0.nanos() <= u128::MAX,
{
    let messages = report.message_ids@;
    let now = choose|now: u128|
        before.clock.shows(now) && after == #[trigger] before.nacked(
            report.consumer_id,
            messages,
            now,
        );
    let front = messages.drop_last();
    assert(front =~= seq![]);
    assert(messages.last() == message);
    assert(crate::nack_batches::after_nacks(before.batches, front) == before.batches);
    assert(crate::nack_batches::nacks_of(before.batches, front) =~= seq![]);
    let ids = crate::nack_batches::nacks_of(before.batches, messages);
    assert(ids =~= seq![message.id.entry()]);
    assert(ids[0] == message.id.entry());
    let last = after.pending.len() - 1;
    assert(after.pending[last].message_ids == ids);
    now
}

/// What a tick does at which the clock was read as `readings`.
pub open spec fn ticked(
    before: NackView,
    readings: Seq<u128>,
    after: NackView,
    action: NackAction,
) -> bool {
    exists|n: nat, groups: Seq<RedeliveryView>|
        {
            &&& #[trigger] leaves(before.pending, readings, n)
            &&& #[trigger] groups_of(departed(before.pending, n), groups)
            &&& hands_out(
                NackView { outgoing: before.outgoing + groups, ..before.after_departures(n) },
                after,
                action,
            )
        }
}

/// A run of the handler: `events` lead it from each of `states` to the next, with `actions`.
pub open spec fn is_run(
    states: Seq<NackView>,
    events: Seq<NackEvent>,
    actions: Seq<NackAction>,
) -> bool {
    &&& states.len() == events.len() + 1
    &&& actions.len() == events.len()
    &&& forall|i: int|
        0 <= i < events.len() ==> nack_step(
            states[i],
            #[trigger] events[i],
            states[i + 1],
            actions[i],
        )
}

/// Before step `m` of a run, after its first, entry `id` of consumer `consumer_id` was to be sent.
pub open spec fn asked_for_by(
    states: Seq<NackView>,
    actions: Seq<NackAction>,
    m: int,
    consumer_id: u64,
    id: MessageIdData,
) -> bool {
    exists|i: int|
        0 < i < m && asks_for(to_send(states[i + 1], #[trigger] actions[i]), consumer_id, id)
}

proof fn lemma_waits_or_asked_for(
    states: Seq<NackView>,
    events: Seq<NackEvent>,
    actions: Seq<NackAction>,
    m: int,
    when: u128,
    consumer_id: u64,
    id: MessageIdData,
)
    requires
        is_run(states, events, actions),
        1 <= m <= events.len(),
        waits(states[1].pending, when, consumer_id, id),
    ensures
        waits(states[m].pending, when, consumer_id, id) || asked_for_by(
            states,
            actions,
            m,
            consumer_id,
            id,
        ),
    decreases m,
{
    if m > 1 {
        let p = m - 1;
        lemma_waits_or_asked_for(states, events, actions, p, when, consumer_id, id);
        assert(nack_step(states[p], events[p], states[p + 1], actions[p]));
        if waits(states[p].pending, when, consumer_id, id) {
            waiting_entries_are_kept(
                states[p],
                events[p],
                states[m],
                actions[p],
                when,
                consumer_id,
                id,
            );
            if asks_for(to_send(states[m], actions[p]), consumer_id, id) {
                assert(asked_for_by(states, actions, m, consumer_id, id));
            }
        } else {
            let i = choose|i: int|
                0 < i < p && asks_for(
                    to_send(states[i + 1], #[trigger] actions[i]),
                    consumer_id,
                    id,
                );
            assert(asked_for_by(states, actions, m, consumer_id, id)) by {
                assert(asks_for(to_send(states[i + 1], actions[i]), consumer_id, id));
            }
        }
    }
}

/// However the handler runs on after the report of a dropped message: by the end of a tick at which
/// the clock shows that the delay is over since the report, a request that names the message's
/// entry was handed out for its consumer.
pub proof fn dropped_messages_are_resent_in_time(
    states: Seq<NackView>,
    events: Seq<NackEvent>,
    actions: Seq<NackAction>,
    report: NackMessage,
    message: MessageData,
    readings: Seq<u128>,
) -> (now: u128)
    requires
        is_run(states, events, actions),
        events.len() >= 2,
        events[0] == NackEvent::Inbound(Poll::Ready(Some(report))),
        report.message_ids@ == seq![message],
        states[0].inbound_open,
        states[0].delay is Some,
        crate::nack_batches::nack_of(states[0].batches, message) is Some,
        ticked(
            states[events.len() - 1],
            readings,
            states[events.len() as int],
            actions[events.len() - 1],
        ),
    ensures
        states[0].clock.shows(now),
        (forall|k: int|
            0 <= k < readings.len() ==> now + states[0].delay->0.nanos() <= #[trigger] readings[k])
            ==> asked_for_by(
            states,
            actions,
            events.len() as int,
            report.consumer_id,
            message.id.entry(),
        ),
{
    let id = message.id.entry();
    let consumer_id = report.consumer_id;
    assert(nack_step(states[0], events[0], states[1], actions[0]));
    let now = dropped_messages_are_resent(states[0], report, message, states[1], actions[0]);
    let when = (now + states[0].delay->0.nanos()) as u128;
    let last = events.len() - 1;
    lemma_waits_or_asked_for(states, events, actions, last, when, consumer_id, id);
    let before = states[last];
    let after = states[last + 1];
    if waits(before.pending, when, consumer_id, id) {
        let (n, groups) = choose|n: nat, groups: Seq<RedeliveryView>|
            {
                &&& #[trigger] leaves(before.pending, readings, n)
                &&& #[trigger] groups_of(departed(before.pending, n), groups)
                &&& hands_out(
                    NackView { outgoing: before.outgoing + groups, ..before.after_departures(n) },
                    after,
                    actions[last],
                )
            };
        waiting_entries_are_asked_for(
            before.pending,
            readings,
            n,
            groups,
            when,
            consumer_id,
            id,
        );
        if forall|k: int| 0 <= k < readings.len() ==> when <= #[trigger] readings[k] {
            lemma_groups_to_send(before, n, groups, after, actions[last], consumer_id, id);
            assert(asked_for_by(states, actions, last + 1, consumer_id, id)) by {
                assert(asks_for(to_send(states[last + 1], actions[last]), consumer_id, id));
            }
        }
    } else {
        let i = choose|i: int|
            0 < i < last && asks_for(
                to_send(states[i + 1], #[trigger] actions[i]),
                consumer_id,
                id,
            );
        assert(asks_for(to_send(states[i + 1], actions[i]), consumer_id, id));
    }
    now
}

proof fn lemma_groups_to_send(
    before: NackView,
    n: nat,
    groups: Seq<RedeliveryView>,
    after: NackView,
    action: NackAction,
    consumer_id: u64,
    id: MessageIdData,
)
    requires
        hands_out(
            NackView { outgoing: before.outgoing + groups, ..before.after_departures(n) },
            after,
            action,
        ),
        asks_for(groups, consumer_id, id),
    ensures
        asks_for(to_send(after, action), consumer_id, id),
{
    let all = before.outgoing + groups;
    let g = choose|g: int|
        0 <= g < groups.len() && (#[trigger] groups[g]).consumer_id == consumer_id
            && groups[g].message_ids.contains(id);
    assert(all[before.outgoing.len() + g] == groups[g]);
    assert(seq![all[0]] + all.drop_first() =~= all);
    assert(to_send(after, action) == all);
}

/// The handler ends well only when no more negative acknowledgements can come and every entry
/// that waited was handed out; it ends badly only when the timer ended or a request could not be
/// sent.
pub proof fn handler_ends_when_done(
    before: NackView,
    event: NackEvent,
    after: NackView,
    action: NackAction,
)
    requires
        nack_step(before, event, after, action),
    ensures
        action == NackAction::Return(Poll::Ready(Ok(()))) ==> !after.inbound_open
            && after.pending.len() == 0 && after.outgoing.len() == 0,
        action == NackAction::Return(Poll::Ready(Err(()))) ==> (event matches NackEvent::Tick(
            Poll::Ready(None),
        )) || (event matches NackEvent::Sent(Err(_))),
{
}

/// No step changes the delay or the clock, or lets negative acknowledgements come again once they
/// have ended. Without a delay, no step lets anything wait.
pub proof fn step_keeps_delay(
    before: NackView,
    event: NackEvent,
    after: NackView,
    action: NackAction,
)
    requires
        nack_step(before, event, after, action),
    ensures
        after.delay == before.delay,
        after.clock == before.clock,
        after.inbound_open ==> before.inbound_open,
        before.delay is None && before.pending.len() == 0 ==> after.pending.len() == 0,
{
    if event matches NackEvent::Tick(Poll::Ready(Some(_))) {
        let (collected, groups) = lemma_tick(before, after, action);
        let (readings, n) = choose|readings: Seq<u128>, n: nat|
            #[trigger] leaves(before.pending, readings, n) && collected == before.after_departures(
                n,
            );
        lemma_waiting_len(before.pending, n);
    }
}

/// A handler that is polled asks for negative acknowledgements as long as some may come, and else
/// for the next tick.
pub proof fn inbound_comes_before_the_timer(before: NackView, after: NackView, action: NackAction)
    requires
        nack_step(before, NackEvent::Woken, after, action),
    ensures
        after == before,
        before.inbound_open ==> action == NackAction::PollInbound,
        !before.inbound_open ==> action == NackAction::PollTick,
{
}

/// Negative acknowledgements are taken one after the other until none is there, and are over for
/// good once their senders are gone. None of this lets anything leave.
pub proof fn inbound_is_drained(
    before: NackView,
    polled: Poll<Option<NackMessage>>,
    after: NackView,
    action: NackAction,
)
    requires
        nack_step(before, NackEvent::Inbound(polled), after, action),
    ensures
        match polled {
            Poll::Ready(Some(_)) => action == (if before.inbound_open {
                NackAction::PollInbound
            } else {
                NackAction::PollTick
            }) && after.inbound_open == before.inbound_open,
            Poll::Ready(None) => action == NackAction::PollTick && !after.inbound_open,
            Poll::Pending => action == NackAction::PollTick && after.inbound_open
                == before.inbound_open,
        },
        !(polled matches Poll::Ready(Some(_))) || !before.inbound_open ==> after.pending
            == before.pending && after.batches == before.batches,
        after.pending.len() >= before.pending.len(),
        forall|i: int|
            0 <= i < before.pending.len() ==> #[trigger] after.pending[i] == before.pending[i],
        after.delay == before.delay,
        after.clock == before.clock,
        after.outgoing == before.outgoing,
{
}

/// The entries that the messages of a report ask for wait together, behind what waits already, until
/// the delay is over since the report. Without a delay, or where nothing is asked for, nothing is
/// added. Either way the handler remembers the messages.
pub proof fn reported_entries_wait(
    before: NackView,
    report: NackMessage,
    after: NackView,
    action: NackAction,
) -> (now: u128)
    requires
        before.inbound_open,
        nack_step(before, NackEvent::Inbound(Poll::Ready(Some(report))), after, action),
    ensures
        before.clock.shows(now),
        after.batches == crate::nack_batches::after_nacks(before.batches, report.message_ids@),
        ({
            let ids = crate::nack_batches::nacks_of(before.batches, report.message_ids@);
            &&& before.delay is None || ids.len() == 0 ==> after.pending == before.pending
            &&& before.delay is Some && ids.len() > 0 ==> {
                &&& after.pending.len() == before.pending.len() + 1
                &&& after.pending.last().consumer_id == report.consumer_id
                &&& after.pending.last().message_ids == ids
                &&& after.pending.last().when == now + before.delay->0.secs * 1_000_000_000
                    + before.delay->0.subsec_nanos
            }
        }),
{
    let now = choose|now: u128|
        before.clock.shows(now) && after == #[trigger] before.nacked(
            report.consumer_id,
            report.message_ids@,
            now,
        );
    now
}

/// The same with the time given: reports that are handled at `now` wait until `now` and the delay.
pub proof fn entries_wait_from_their_report(
    before: NackView,
    consumer_id: u64,
    messages: Seq<MessageData>,
    now: u128,
)
    requires
        before.delay is Some ==> now + before.delay->0.secs * 1_000_000_000
            + before.delay->0.subsec_nanos <= u128::MAX,
    ensures
        ({
            let after = before.nacked(consumer_id, messages, now);
            let ids = crate::nack_batches::nacks_of(before.batches, messages);
            &&& before.delay is None || ids.len() == 0 ==> after.pending == before.pending
            &&& before.delay is Some && ids.len() > 0 ==> {
                &&& after.pending.len() == before.pending.len() + 1
                &&& after.pending.drop_last() == before.pending
                &&& after.pending.last().consumer_id == consumer_id
                &&& after.pending.last().message_ids == ids
                &&& after.pending.last().when == now + before.delay->0.secs * 1_000_000_000
                    + before.delay->0.subsec_nanos
            }
            &&& after.batches == crate::nack_batches::after_nacks(before.batches, messages)
            &&& after.inbound_open == before.inbound_open
            &&& after.delay == before.delay
            &&& after.clock == before.clock
            &&& after.outgoing == before.outgoing
        }),
{
    let after = before.nacked(consumer_id, messages, now);
    if before.delay is Some && crate::nack_batches::nacks_of(before.batches, messages).len() > 0 {
        assert(after.pending.drop_last() =~= before.pending);
    }
}

/// Something is due exactly if the time of some resend has come. What leaves then was put there, no
/// other was to leave before it, and the others wait on in their order.
pub proof fn earliest_resend_leaves(handler: NackView, now: u128)
    ensures
        handler.is_due(now) <==> exists|i: int|
            0 <= i < handler.pending.len() && (#[trigger] handler.pending[i]).when <= now,
        handler.pending.len() > 0 ==> exists|e: int|
            {
                &&& 0 <= e < handler.pending.len()
                &&& due(handler.pending, 0) == #[trigger] handler.pending[e]
                &&& handler.after_departures(1).pending == handler.pending.remove(e)
                &&& forall|j: int|
                    0 <= j < handler.pending.len() ==> handler.pending[e].when <= (
                    #[trigger] handler.pending[j]).when
            },
        handler.after_departures(1).delay == handler.delay,
        handler.after_departures(1).batches == handler.batches,
        handler.after_departures(1).inbound_open == handler.inbound_open,
        handler.after_departures(1).outgoing == handler.outgoing,
{
    let pending = handler.pending;
    if pending.len() > 0 {
        lemma_earliest(pending);
        assert(waiting_after(pending, 0) == pending);
        let e = earliest(pending);
        assert(due(pending, 0) == pending[e]);
        assert(waiting_after(pending, 1) == pending.remove(e)) by {
            reveal_with_fuel(waiting_after, 2);
        }
    }
}

/// A resend is ready from its time on.
pub proof fn resends_are_ready_from_their_time_on(
    pending: Seq<ResendView>,
    now: u128,
    resend: ResendView,
)
    ensures
        ready(pending, now).contains(resend) <==> pending.contains(resend) && resend.when <= now,
        not_ready(pending, now).contains(resend) <==> pending.contains(resend) && now
            < resend.when,
{
    crate::text_list::lemma_filter_contains(pending, |r: ResendView| r.when <= now, resend);
    crate::text_list::lemma_filter_contains(pending, |r: ResendView| r.when > now, resend);
}

/// What goes to a consumer is put together in the order in which it leaves, nothing left out and
/// nothing named more often than it left.
pub proof fn entries_are_put_together_in_order(
    first: Seq<ResendView>,
    second: Seq<ResendView>,
    resend: ResendView,
    consumer_id: u64,
)
    ensures
        ids_for(first + second, consumer_id) == ids_for(first, consumer_id) + ids_for(
            second,
            consumer_id,
        ),
        resend.consumer_id == consumer_id ==> ids_for(seq![resend], consumer_id)
            == resend.message_ids,
        resend.consumer_id != consumer_id ==> ids_for(seq![resend], consumer_id).len() == 0,
        ids_for(seq![], consumer_id).len() == 0,
    decreases second.len(),
{
    let none = Seq::<ResendView>::empty();
    assert(seq![resend].drop_last() =~= none);
    assert(ids_for(none, consumer_id) =~= Seq::<MessageIdData>::empty());
    assert(Seq::<MessageIdData>::empty() + resend.message_ids =~= resend.message_ids);
    if second.len() == 0 {
        assert(first + second =~= first);
        assert(ids_for(first, consumer_id) + ids_for(second, consumer_id) =~= ids_for(
            first,
            consumer_id,
        ));
    } else {
        entries_are_put_together_in_order(first, second.drop_last(), resend, consumer_id);
        assert((first + second).drop_last() =~= first + second.drop_last());
        assert((first + second).last() == second.last());
        assert(ids_for(first + second, consumer_id) =~= ids_for(first, consumer_id) + ids_for(
            second,
            consumer_id,
        ));
    }
}

/// Each consumer that some resend goes to gets exactly one request, with all its entries, in the
/// order in which they leave; no other gets one. Requests come in increasing order of consumer.
pub proof fn each_consumer_gets_one_request(
    resends: Seq<ResendView>,
    groups: Seq<RedeliveryView>,
    consumer_id: u64,
)
    requires
        groups_of(resends, groups),
    ensures
        (exists|i: int| 0 <= i < groups.len() && (#[trigger] groups[i]).consumer_id == consumer_id)
            <==> (exists|k: int|
            0 <= k < resends.len() && (#[trigger] resends[k]).consumer_id == consumer_id),
        forall|i: int|
            0 <= i < groups.len() && (#[trigger] groups[i]).consumer_id == consumer_id
                ==> groups[i].message_ids == ids_for(resends, consumer_id),
        forall|i: int, j: int|
            0 <= i < j < groups.len() ==> (#[trigger] groups[i]).consumer_id < (
            #[trigger] groups[j]).consumer_id,
{
    assert(addressed(groups, consumer_id) <==> goes_to(resends, consumer_id));
}

/// A handler whose timer gives no tick waits, unless nothing can come, nothing waits and nothing is
/// to be sent any more; then it is done. A timer that ended, or a request that could not be sent,
/// fails it.
pub proof fn handler_waits_for_ticks(
    before: NackView,
    event: NackEvent,
    after: NackView,
    action: NackAction,
)
    requires
        nack_step(before, event, after, action),
    ensures
        event == NackEvent::Tick(Poll::Pending) ==> {
            &&& after == before
            &&& !before.inbound_open && before.pending.len() == 0 && before.outgoing.len() == 0
                ==> action == NackAction::Return(Poll::Ready(Ok(())))
            &&& before.inbound_open || before.pending.len() > 0 || before.outgoing.len() > 0
                ==> action == NackAction::Return(Poll::Pending)
        },
        event == NackEvent::Tick(Poll::Ready(None)) ==> action == NackAction::Return(
            Poll::Ready(Err(())),
        ) && after == before,
        event matches NackEvent::Sent(Err(_)) ==> action == NackAction::Return(
            Poll::Ready(Err(())),
        ) && after.pending == before.pending && after.outgoing.len() == 0,
{
}

/// Two resends, or two requests, that look the same are the same.
pub proof fn resends_are_seen_in_full(
    a: MessageResend,
    b: MessageResend,
    c: Redelivery,
    d: Redelivery,
)
    requires
        a@ == b@,
        c@ == d@,
    ensures
        a.when == b.when,
        a.consumer_id == b.consumer_id,
        a.message_ids@ == b.message_ids@,
        c.consumer_id == d.consumer_id,
        c.message_ids@ == d.message_ids@,
{
}

} // verus!
