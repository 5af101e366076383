//! Consumers by topic.
use crate::consumer::{Consumer, DeserializeMessage};
use crate::text::is_text_less;
use vstd::prelude::*;

verus! {

/// Consumers of different topics, in the order of their topics.
pub struct ConsumerSet<T: DeserializeMessage, Io> {
    consumers: Vec<Consumer<T, Io>>,
}

spec fn topics_of<T: DeserializeMessage, Io>(consumers: Seq<Consumer<T, Io>>) -> Seq<Seq<char>> {
    consumers.map_values(|c: Consumer<T, Io>| c@.topic)
}

spec fn place<T: DeserializeMessage, Io>(consumers: Seq<Consumer<T, Io>>, topic: Seq<char>) -> int {
    choose|i: int| 0 <= i < consumers.len() && (#[trigger] consumers[i])@.topic == topic
}

spec fn holds<T: DeserializeMessage, Io>(consumers: Seq<Consumer<T, Io>>, topic: Seq<char>) -> bool {
    exists|i: int| 0 <= i < consumers.len() && (#[trigger] consumers[i])@.topic == topic
}

spec fn as_map<T: DeserializeMessage, Io>(consumers: Seq<Consumer<T, Io>>) -> Map<
    Seq<char>,
    Consumer<T, Io>,
> {
    Map::new(
        |topic: Seq<char>| holds(consumers, topic),
        |topic: Seq<char>| consumers[place(consumers, topic)],
    )
}

spec fn sorted<T: DeserializeMessage, Io>(consumers: Seq<Consumer<T, Io>>) -> bool {
    forall|i: int, j: int|
        0 <= i < j < consumers.len() ==> crate::text::text_less(
            (#[trigger] consumers[i])@.topic,
            (#[trigger] consumers[j])@.topic,
        )
}

proof fn lemma_lookup<T: DeserializeMessage, Io>(consumers: Seq<Consumer<T, Io>>, i: int)
    requires
        sorted(consumers),
        0 <= i < consumers.len(),
    ensures
        holds(consumers, consumers[i]@.topic),
        place(consumers, consumers[i]@.topic) == i,
        as_map(consumers).contains_key(consumers[i]@.topic),
        as_map(consumers)[consumers[i]@.topic] == consumers[i],
{
    let topic = consumers[i]@.topic;
    assert(holds(consumers, topic));
    let p = place(consumers, topic);
    assert(0 <= p < consumers.len() && consumers[p]@.topic == topic);
    crate::text::text_order_is_total(topic, topic);
}

/// Two sorted lists with the same consumers, except for those of topic `topic`, are equal as maps
/// outside `topic`.
proof fn lemma_same_elsewhere<T: DeserializeMessage, Io>(
    a: Seq<Consumer<T, Io>>,
    b: Seq<Consumer<T, Io>>,
    topic: Seq<char>,
)
    requires
        sorted(a),
        sorted(b),
        forall|i: int|
            0 <= i < a.len() && (#[trigger] a[i])@.topic != topic ==> exists|j: int|
                0 <= j < b.len() && #[trigger] b[j] == a[i],
        forall|j: int|
            0 <= j < b.len() && (#[trigger] b[j])@.topic != topic ==> exists|i: int|
                0 <= i < a.len() && #[trigger] a[i] == b[j],
    ensures
        forall|t: Seq<char>|
            #![trigger as_map(b).dom().contains(t)]
            #![trigger as_map(a).dom().contains(t)]
            #![trigger as_map(b)[t]]
            t != topic ==> as_map(a).dom().contains(t) == as_map(b).dom().contains(t) && (
            as_map(a).dom().contains(t) ==> as_map(a)[t] == as_map(b)[t]),
{
    assert forall|t: Seq<char>|
        #![trigger as_map(b).dom().contains(t)]
        #![trigger as_map(a).dom().contains(t)]
        #![trigger as_map(b)[t]]
        t != topic implies as_map(a).dom().contains(t) == as_map(b).dom().contains(t) && (as_map(
        a,
    ).dom().contains(t) ==> as_map(a)[t] == as_map(b)[t]) by {
        if holds(a, t) {
            let i = place(a, t);
            let j = choose|j: int| 0 <= j < b.len() && #[trigger] b[j] == a[i];
            lemma_lookup(a, i);
            lemma_lookup(b, j);
        }
        if holds(b, t) {
            let j = place(b, t);
            let i = choose|i: int| 0 <= i < a.len() && #[trigger] a[i] == b[j];
            lemma_lookup(a, i);
        }
    }
}

proof fn lemma_update<T: DeserializeMessage, Io>(
    consumers: Seq<Consumer<T, Io>>,
    i: int,
    c: Consumer<T, Io>,
)
    requires
        sorted(consumers),
        0 <= i < consumers.len(),
        c@.topic == consumers[i]@.topic,
    ensures
        sorted(consumers.update(i, c)),
        as_map(consumers.update(i, c)) == as_map(consumers).insert(c@.topic, c),
{
    let after = consumers.update(i, c);
    let topic = c@.topic;
    assert(sorted(after)) by {
        assert forall|x: int, y: int| 0 <= x < y < after.len() implies crate::text::text_less(
            (#[trigger] after[x])@.topic,
            (#[trigger] after[y])@.topic,
        ) by {
            assert(crate::text::text_less(consumers[x]@.topic, consumers[y]@.topic));
        }
    }
    assert forall|x: int|
        0 <= x < consumers.len() && (#[trigger] consumers[x])@.topic != topic implies exists|y: int|
            0 <= y < after.len() && #[trigger] after[y] == consumers[x] by {
        assert(after[x] == consumers[x]);
    }
    assert forall|y: int|
        0 <= y < after.len() && (#[trigger] after[y])@.topic != topic implies exists|x: int|
            0 <= x < consumers.len() && #[trigger] consumers[x] == after[y] by {
        assert(consumers[y] == after[y]);
    }
    lemma_same_elsewhere(consumers, after, topic);
    lemma_lookup(after, i);
    assert(as_map(after) =~= as_map(consumers).insert(topic, c));
}

proof fn lemma_insert<T: DeserializeMessage, Io>(
    consumers: Seq<Consumer<T, Io>>,
    i: int,
    c: Consumer<T, Io>,
)
    requires
        sorted(consumers),
        0 <= i <= consumers.len(),
        forall|j: int|
            0 <= j < i ==> crate::text::text_less((#[trigger] consumers[j])@.topic, c@.topic),
        i < consumers.len() ==> crate::text::text_less(c@.topic, consumers[i]@.topic),
    ensures
        sorted(consumers.insert(i, c)),
        as_map(consumers.insert(i, c)) == as_map(consumers).insert(c@.topic, c),
{
    let after = consumers.insert(i, c);
    let topic = c@.topic;
    assert forall|j: int| i <= j < consumers.len() implies crate::text::text_less(
        topic,
        (#[trigger] consumers[j])@.topic,
    ) by {
        if j > i {
            assert(crate::text::text_less(consumers[i]@.topic, consumers[j]@.topic));
            crate::text::text_order_is_transitive(topic, consumers[i]@.topic, consumers[j]@.topic);
        }
    }
    assert(sorted(after)) by {
        assert forall|x: int, y: int| 0 <= x < y < after.len() implies crate::text::text_less(
            (#[trigger] after[x])@.topic,
            (#[trigger] after[y])@.topic,
        ) by {
            let p = if x < i {
                x
            } else {
                x - 1
            };
            let q = if y < i {
                y
            } else {
                y - 1
            };
            if x != i {
                assert(after[x] == consumers[p]);
            }
            if y != i {
                assert(after[y] == consumers[q]);
            }
        }
    }
    assert forall|x: int|
        0 <= x < consumers.len() && (#[trigger] consumers[x])@.topic != topic implies exists|y: int|
            0 <= y < after.len() && #[trigger] after[y] == consumers[x] by {
        assert(after[if x < i {
            x
        } else {
            x + 1
        }] == consumers[x]);
    }
    assert forall|y: int|
        0 <= y < after.len() && (#[trigger] after[y])@.topic != topic implies exists|x: int|
            0 <= x < consumers.len() && #[trigger] consumers[x] == after[y] by {
        assert(consumers[if y < i {
            y
        } else {
            y - 1
        }] == after[y]);
    }
    lemma_same_elsewhere(consumers, after, topic);
    assert(after[i] == c);
    lemma_lookup(after, i);
    assert(as_map(after) =~= as_map(consumers).insert(topic, c));
}

proof fn lemma_remove<T: DeserializeMessage, Io>(consumers: Seq<Consumer<T, Io>>, i: int)
    requires
        sorted(consumers),
        0 <= i < consumers.len(),
    ensures
        sorted(consumers.remove(i)),
        as_map(consumers.remove(i)) == as_map(consumers).remove(consumers[i]@.topic),
{
    let after = consumers.remove(i);
    let topic = consumers[i]@.topic;
    assert(forall|x: int|
        0 <= x < after.len() ==> (#[trigger] after[x]) == consumers[if x < i {
            x
        } else {
            x + 1
        }]);
    assert(sorted(after));
    assert forall|x: int|
        0 <= x < consumers.len() && (#[trigger] consumers[x])@.topic != topic implies exists|y: int|
            0 <= y < after.len() && #[trigger] after[y] == consumers[x] by {
        assert(after[if x < i {
            x
        } else {
            x - 1
        }] == consumers[x]);
    }
    assert forall|y: int|
        0 <= y < after.len() && (#[trigger] after[y])@.topic != topic implies exists|x: int|
            0 <= x < consumers.len() && #[trigger] consumers[x] == after[y] by {
        assert(consumers[if y < i {
            y
        } else {
            y + 1
        }] == after[y]);
    }
    lemma_same_elsewhere(consumers, after, topic);
    assert(!holds(after, topic)) by {
        if holds(after, topic) {
            let y = place(after, topic);
            let x = if y < i {
                y
            } else {
                y + 1
            };
            assert(consumers[x]@.topic == topic);
            lemma_lookup(consumers, x);
            lemma_lookup(consumers, i);
        }
    }
    assert(as_map(after) =~= as_map(consumers).remove(topic));
}

impl<T: DeserializeMessage, Io> View for ConsumerSet<T, Io> {
    type V = Map<Seq<char>, Consumer<T, Io>>;

    closed spec fn view(&self) -> Map<Seq<char>, Consumer<T, Io>> {
        as_map(self.consumers@)
    }
}

impl<T: DeserializeMessage, Io> ConsumerSet<T, Io> {
    /// The consumers come in the order of their topics, and no topic has two.
    pub closed spec fn wf(&self) -> bool {
        sorted(self.consumers@)
    }

    /// No consumers.
    pub fn new() -> (r: Self)
        ensures
            r.wf(),
            r@ == Map::<Seq<char>, Consumer<T, Io>>::empty(),
    {
        let r: ConsumerSet<T, Io> = ConsumerSet { consumers: Vec::new() };
        assert(r@ =~= Map::<Seq<char>, Consumer<T, Io>>::empty());
        r
    }

    /// The place of a topic, and whether there is a consumer of it.
    fn locate(&self, topic: &str) -> (r: (usize, bool))
        requires
            self.wf(),
        ensures
            r.0 <= self.consumers@.len(),
            forall|j: int|
                0 <= j < r.0 ==> crate::text::text_less(
                    (#[trigger] self.consumers@[j])@.topic,
                    topic@,
                ),
            r.1 ==> r.0 < self.consumers@.len() && self.consumers@[r.0 as int]@.topic == topic@,
            !r.1 ==> !self@.contains_key(topic@),
            !r.1 && r.0 < self.consumers@.len() ==> crate::text::text_less(
                topic@,
                self.consumers@[r.0 as int]@.topic,
            ),
    {
        let mut i: usize = 0;
        while i < self.consumers.len() && is_text_less(self.consumers[i].topic(), topic)
            invariant
                i <= self.consumers@.len(),
                forall|j: int|
                    0 <= j < i ==> crate::text::text_less(
                        (#[trigger] self.consumers@[j])@.topic,
                        topic@,
                    ),
            decreases self.consumers@.len() - i,
        {
            i = i + 1;
        }
        let found: bool = i < self.consumers.len() && !is_text_less(
            topic,
            self.consumers[i].topic(),
        );
        proof {
            if i < self.consumers@.len() {
                crate::text::text_order_is_total(self.consumers@[i as int]@.topic, topic@);
            }
            if !found && holds(self.consumers@, topic@) {
                let p = place(self.consumers@, topic@);
                crate::text::text_order_is_total(topic@, topic@);
                if p > i {
                    crate::text::text_order_is_total(
                        self.consumers@[i as int]@.topic,
                        self.consumers@[p]@.topic,
                    );
                }
            }
        }
        (i, found)
    }

    /// The consumer of a topic.
    pub fn get(&self, topic: &str) -> (r: Option<&Consumer<T, Io>>)
        requires
            self.wf(),
        ensures
            match r {
                Some(consumer) => self@.contains_key(topic@) && *consumer == self@[topic@]
                    && consumer@.topic == topic@,
                None => !self@.contains_key(topic@),
            },
    {
        let (i, found) = self.locate(topic);
        if found {
            proof {
                lemma_lookup(self.consumers@, i as int);
            }
            Some(&self.consumers[i])
        } else {
            None
        }
    }

    /// The consumer of a topic, to be changed.
    pub fn get_mut(&mut self, topic: &str) -> (r: &mut Consumer<T, Io>)
        requires
            old(self).wf(),
            old(self)@.contains_key(topic@),
        ensures
            *r == old(self)@[topic@],
            r@.topic == topic@,
            final(r)@.topic == topic@ ==> final(self).wf() && final(self)@ == old(self)@.insert(
                topic@,
                *final(r),
            ),
    {
        let (i, found) = self.locate(topic);
        let ghost before = self.consumers@;
        proof {
            lemma_lookup(before, i as int);
            assert forall|c: Consumer<T, Io>| c@.topic == topic@ implies sorted(
                #[trigger] before.update(i as int, c),
            ) && as_map(before.update(i as int, c)) == as_map(before).insert(topic@, c) by {
                lemma_update(before, i as int, c);
            }
        }
        &mut self.consumers[i]
    }

    /// Puts a consumer in, in the place of the one of its topic if there is one.
    pub fn insert(&mut self, consumer: Consumer<T, Io>)
        requires
            old(self).wf(),
        ensures
            final(self).wf(),
            final(self)@ == old(self)@.insert(consumer@.topic, consumer),
    {
        let (i, found) = self.locate(consumer.topic());
        let ghost before = self.consumers@;
        if found {
            proof {
                lemma_update(before, i as int, consumer);
            }
            self.consumers.set(i, consumer);
        } else {
            proof {
                lemma_insert(before, i as int, consumer);
            }
            self.consumers.insert(i, consumer);
        }
    }

    /// Drops the consumer of a topic, if there is one.
    pub fn remove(&mut self, topic: &str)
        requires
            old(self).wf(),
        ensures
            final(self).wf(),
            final(self)@ == old(self)@.remove(topic@),
    {
        let (i, found) = self.locate(topic);
        if found {
            proof {
                lemma_remove(self.consumers@, i as int);
            }
            let _ = self.consumers.remove(i);
        } else {
            assert(self@ =~= self@.remove(topic@));
        }
    }

    /// The topics, in order.
    pub fn topics(&self) -> (r: Vec<String>)
        requires
            self.wf(),
        ensures
            crate::text_list::in_order(crate::text_list::texts(r@)),
            forall|topic: Seq<char>| #[trigger]
                crate::text_list::texts(r@).contains(topic) <==> self@.contains_key(topic),
    {
        let mut r: Vec<String> = Vec::new();
        let mut i: usize = 0;
        while i < self.consumers.len()
            invariant
                i <= self.consumers@.len(),
                r@.len() == i,
                forall|j: int| 0 <= j < i ==> (#[trigger] r@[j])@ == self.consumers@[j]@.topic,
            decreases self.consumers@.len() - i,
        {
            r.push(self.consumers[i].topic().to_owned());
            i = i + 1;
        }
        proof {
            assert(crate::text_list::texts(r@) =~= topics_of(self.consumers@));
            let all = crate::text_list::texts(r@);
            assert forall|x: int, y: int| 0 <= x < y < all.len() implies crate::text::text_less(
                #[trigger] all[x],
                #[trigger] all[y],
            ) by {
                assert(crate::text::text_less(
                    self.consumers@[x]@.topic,
                    self.consumers@[y]@.topic,
                ));
            }
            assert forall|topic: Seq<char>| #[trigger]
                all.contains(topic) <==> self@.contains_key(topic) by {
                if all.contains(topic) {
                    let k = choose|k: int| 0 <= k < all.len() && all[k] == topic;
                    lemma_lookup(self.consumers@, k);
                }
                if holds(self.consumers@, topic) {
                    let k = place(self.consumers@, topic);
                    assert(all[k] == topic);
                }
            }
        }
        r
    }
}

} // verus!
