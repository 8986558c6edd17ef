//! The event bus: subscribers, ordered by priority, receive every published
//! event of the type they subscribed to.

use vstd::prelude::*;
use crate::message::{BoxedEvent, Event};
use crate::type_key::{same_key, type_key};

verus! {

/// Priority of a subscriber: a higher value is served first.
#[derive(Debug, Clone, Copy, PartialEq, Eq, Structural, PartialOrd, Ord, Hash)]
pub struct Priority(pub i32);

impl Priority {
    pub fn high() -> (p: Priority)
        ensures
            p.0 == 100,
    {
        Priority(100)
    }

    pub fn normal() -> (p: Priority)
        ensures
            p.0 == 50,
    {
        Priority(50)
    }

    pub fn low() -> (p: Priority)
        ensures
            p.0 == 0,
    {
        Priority(0)
    }
}

/// What a subscriber does with an event of type `E`.
pub trait EventHandler<E> {
    fn handle(&self, event: &E);
}

/// One subscription: its priority, the key of the event type it listens
/// to, and the handler.
pub struct Subscriber<H> {
    pub priority: Priority,
    pub topic: std::any::TypeId,
    pub handler: H,
}

/// Subscribers in serving order: priorities never increase along the list.
pub open spec fn sorted_by_priority<H>(s: Seq<Subscriber<H>>) -> bool {
    forall|i: int, j: int| 0 <= i < j < s.len() ==> s[i].priority.0 >= s[j].priority.0
}

/// Where a new subscriber of priority `p` goes: before the first subscriber
/// of a lower priority, so after all of an equal or higher one.
pub open spec fn insertion_index<H>(s: Seq<Subscriber<H>>, p: i32) -> nat
    decreases s.len(),
{
    if s.len() == 0 {
        0
    } else if s[0].priority.0 < p {
        0
    } else {
        1 + insertion_index(s.drop_first(), p)
    }
}

/// The subscribers after `sub` subscribes.
pub open spec fn subscribed<H>(s: Seq<Subscriber<H>>, sub: Subscriber<H>) -> Seq<Subscriber<H>> {
    s.insert(insertion_index(s, sub.priority.0) as int, sub)
}

/// The positions of the subscribers to `topic`, in serving order.
pub open spec fn delivery_order<H>(s: Seq<Subscriber<H>>, topic: std::any::TypeId) -> Seq<usize>
    decreases s.len(),
{
    if s.len() == 0 {
        Seq::empty()
    } else {
        let rest = delivery_order(s.drop_last(), topic);
        if s.last().topic == topic {
            rest.push((s.len() - 1) as usize)
        } else {
            rest
        }
    }
}

/// Every subscriber to `topic` has been handed `event`: for each position in
/// the delivery order, a call of its handler on `event` has returned.
pub open spec fn served<H: EventHandler<E>, E>(
    s: Seq<Subscriber<H>>,
    topic: std::any::TypeId,
    event: E,
) -> bool {
    forall|k: int|
        0 <= k < delivery_order(s, topic).len() ==> call_ensures(
            <H as EventHandler<E>>::handle,
            (&s[#[trigger] delivery_order(s, topic)[k] as int].handler, &event),
            (),
        )
}

/// Typed event bus with priority-ordered handlers.
pub struct EventBus<H> {
    handlers: Vec<Subscriber<H>>,
}

impl<H> View for EventBus<H> {
    type V = Seq<Subscriber<H>>;

    closed spec fn view(&self) -> Seq<Subscriber<H>> {
        self.handlers@
    }
}

impl<H> EventBus<H> {
    #[verifier::type_invariant]
    spec fn well_ordered(self) -> bool {
        sorted_by_priority(self.handlers@)
    }

    pub fn new() -> (r: Self)
        ensures
            r@ == Seq::<Subscriber<H>>::empty(),
    {
        EventBus { handlers: Vec::new() }
    }

    /// Subscribes `handler` to the events whose type has the key `topic`.
    pub fn subscribe_topic(&mut self, priority: Priority, topic: std::any::TypeId, handler: H)
        ensures
            final(self)@ == subscribed(old(self)@, (Subscriber { priority, topic, handler })),
            final(self)@.len() == old(self)@.len() + 1,
            sorted_by_priority(final(self)@),
    {
        proof {
            use_type_invariant(&*self);
        }
        let mut i: usize = 0;
        while i < self.handlers.len() && self.handlers[i].priority.0 >= priority.0
            invariant
                i <= self.handlers@.len(),
                forall|j: int| 0 <= j < i ==> self.handlers@[j].priority.0 >= priority.0,
            decreases self.handlers@.len() - i,
        {
            i = i + 1;
        }
        let sub = Subscriber { priority, topic, handler };
        proof {
            let s = self.handlers@;
            lemma_insertion_index(s, priority.0, i as nat);
            lemma_insert_keeps_sorted(s, sub);
        }
        let mut list: Vec<Subscriber<H>> = Vec::new();
        std::mem::swap(&mut list, &mut self.handlers);
        list.insert(i, sub);
        self.handlers = list;
    }

    /// Subscribes `handler` to the events of type `E`.
    pub fn subscribe<E: Event + 'static>(&mut self, priority: Priority, handler: H)
        ensures
            exists|t: std::any::TypeId|
                final(self)@ == subscribed(
                    old(self)@,
                    (Subscriber { priority, topic: t, handler }),
                ),
    {
        let topic = type_key::<E>();
        self.subscribe_topic(priority, topic, handler);
    }

    /// The positions of the subscribers to `topic`, in the order in which
    /// they are served.
    pub fn route(&self, topic: &std::any::TypeId) -> (r: Vec<usize>)
        ensures
            r@ == delivery_order(self@, *topic),
            sorted_by_priority(self@),
    {
        proof {
            use_type_invariant(self);
        }
        let mut r: Vec<usize> = Vec::new();
        let mut i: usize = 0;
        while i < self.handlers.len()
            invariant
                i <= self.handlers@.len(),
                r@ == delivery_order(self.handlers@.take(i as int), *topic),
            decreases self.handlers@.len() - i,
        {
            proof {
                assert(self.handlers@.take(i + 1).drop_last() =~= self.handlers@.take(i as int));
            }
            if same_key(&self.handlers[i].topic, topic) {
                r.push(i);
            }
            i = i + 1;
        }
        proof {
            assert(self.handlers@.take(i as int) =~= self.handlers@);
        }
        r
    }

    /// Hands `event` to the subscribers to `topic`, in serving order, one
    /// call per position of `delivery_order`. The contract names the calls
    /// that returned; a call of `handle` returns nothing and leaves nothing
    /// that a contract can see, so when each call was made (the order, and
    /// that no other call was made) is left unsaid and follows the loop.
    pub fn publish_topic<E>(&self, topic: &std::any::TypeId, event: &E)
        where
            H: EventHandler<E>,
        ensures
            served(self@, *topic, *event),
    {
        let order = self.route(topic);
        proof {
            assert(self.handlers@.len() == self.handlers.len());
            law_delivery_exactly_to_topic(self@, *topic);
        }
        let mut k: usize = 0;
        while k < order.len()
            invariant
                k <= order@.len(),
                order@ == delivery_order(self@, *topic),
                forall|j: int| 0 <= j < order@.len() ==> order@[j] < self@.len(),
                forall|j: int|
                    0 <= j < k ==> call_ensures(
                        <H as EventHandler<E>>::handle,
                        (&self@[#[trigger] order@[j] as int].handler, event),
                        (),
                    ),
            decreases order@.len() - k,
        {
            let i = order[k];
            self.handlers[i].handler.handle(event);
            k = k + 1;
        }
    }

    /// Publishes an event to the subscribers of its type.
    pub fn publish<E: Event + 'static>(&self, event: E)
        where
            H: EventHandler<E>,
        ensures
            exists|t: std::any::TypeId| served(self@, t, event),
    {
        let topic = type_key::<E>();
        self.publish_topic(&topic, &event);
    }

    /// Publishes a shared event to the subscribers of its type.
    pub fn publish_boxed<E: Event + 'static>(&self, event: BoxedEvent<E>)
        where
            H: EventHandler<E>,
        ensures
            exists|t: std::any::TypeId| served(self@, t, event@),
    {
        let topic = type_key::<E>();
        self.publish_topic(&topic, event.inner());
    }

    pub fn handler_count(&self) -> (r: usize)
        ensures
            r == self@.len(),
    {
        self.handlers.len()
    }
}

impl<H> Default for EventBus<H> {
    fn default() -> (r: Self)
        ensures
            r@ == Seq::<Subscriber<H>>::empty(),
    {
        Self::new()
    }
}

/// Subscribing keeps the subscribers in serving order.
pub proof fn law_subscribe_keeps_serving_order<H>(s: Seq<Subscriber<H>>, sub: Subscriber<H>)
    requires
        sorted_by_priority(s),
    ensures
        sorted_by_priority(subscribed(s, sub)),
{
    lemma_insert_keeps_sorted(s, sub);
}

/// A new subscriber is served after every earlier subscriber of an equal or
/// higher priority and before every one of a lower priority; the earlier
/// subscribers keep their relative order.
pub proof fn law_subscriber_placement<H>(s: Seq<Subscriber<H>>, sub: Subscriber<H>)
    requires
        sorted_by_priority(s),
    ensures
        ({
            let k = insertion_index(s, sub.priority.0) as int;
            let t = subscribed(s, sub);
            &&& 0 <= k <= s.len()
            &&& t.len() == s.len() + 1
            &&& t[k] == sub
            &&& forall|j: int| 0 <= j < k ==> t[j] == s[j] && s[j].priority.0 >= sub.priority.0
            &&& forall|j: int| k < j < t.len() ==> t[j] == s[j - 1] && s[j - 1].priority.0
                < sub.priority.0
        }),
{
    lemma_insertion_index_splits(s, sub.priority.0);
}

/// Of two subscribers of equal priority, the one that subscribed first is
/// served first.
pub proof fn law_equal_priority_in_subscription_order<H>(
    s: Seq<Subscriber<H>>,
    a: Subscriber<H>,
    b: Subscriber<H>,
)
    requires
        sorted_by_priority(s),
        a.priority == b.priority,
    ensures
        ({
            let ka = insertion_index(s, a.priority.0) as int;
            let kb = insertion_index(subscribed(s, a), b.priority.0) as int;
            let t = subscribed(subscribed(s, a), b);
            &&& ka < kb
            &&& t[ka] == a
            &&& t[kb] == b
        }),
{
    let s1 = subscribed(s, a);
    lemma_insertion_index_splits(s, a.priority.0);
    lemma_insert_keeps_sorted(s, a);
    lemma_insertion_index_splits(s1, b.priority.0);
    let ka = insertion_index(s, a.priority.0) as int;
    assert(s1[ka] == a);
}

/// Events are served in priority order: along the delivery order of any
/// topic, priorities never increase.
pub proof fn law_delivery_by_priority<H>(s: Seq<Subscriber<H>>, topic: std::any::TypeId)
    requires
        sorted_by_priority(s),
        s.len() <= usize::MAX,
    ensures
        forall|k: int, l: int|
            0 <= k < l < delivery_order(s, topic).len() ==> s[delivery_order(
                s,
                topic,
            )[k] as int].priority.0 >= s[delivery_order(s, topic)[l] as int].priority.0,
{
    law_delivery_exactly_to_topic(s, topic);
}

/// The scan that stops at the first subscriber of a lower priority than
/// `p` stops at `insertion_index`.
proof fn lemma_insertion_index<H>(s: Seq<Subscriber<H>>, p: i32, k: nat)
    requires
        k <= s.len(),
        forall|j: int| 0 <= j < k ==> s[j].priority.0 >= p,
        k == s.len() || s[k as int].priority.0 < p,
    ensures
        insertion_index(s, p) == k,
    decreases s.len(),
{
    if s.len() > 0 && k > 0 {
        lemma_insertion_index(s.drop_first(), p, (k - 1) as nat);
    }
}

/// Around `insertion_index`, a sorted list holds the priorities at least
/// `p` before and those below `p` after.
proof fn lemma_insertion_index_splits<H>(s: Seq<Subscriber<H>>, p: i32)
    requires
        sorted_by_priority(s),
    ensures
        insertion_index(s, p) <= s.len(),
        forall|j: int| 0 <= j < insertion_index(s, p) ==> s[j].priority.0 >= p,
        forall|j: int| insertion_index(s, p) <= j < s.len() ==> s[j].priority.0 < p,
    decreases s.len(),
{
    if s.len() > 0 && s[0].priority.0 >= p {
        let t = s.drop_first();
        assert(sorted_by_priority(t));
        lemma_insertion_index_splits(t, p);
        assert forall|j: int| 0 <= j < insertion_index(s, p) implies s[j].priority.0 >= p by {
            if j > 0 {
                assert(s[j] == t[j - 1]);
            }
        }
        assert forall|j: int| insertion_index(s, p) <= j < s.len() implies s[j].priority.0 < p by {
            assert(s[j] == t[j - 1]);
        }
    }
}

/// Inserting at `insertion_index` keeps a sorted list sorted.
proof fn lemma_insert_keeps_sorted<H>(s: Seq<Subscriber<H>>, sub: Subscriber<H>)
    requires
        sorted_by_priority(s),
    ensures
        sorted_by_priority(subscribed(s, sub)),
{
    lemma_insertion_index_splits(s, sub.priority.0);
    let k = insertion_index(s, sub.priority.0) as int;
    let t = subscribed(s, sub);
    assert forall|i: int, j: int| 0 <= i < j < t.len() implies t[i].priority.0
        >= t[j].priority.0 by {
        if i < k {
            if j > k {
                assert(t[j] == s[j - 1]);
            }
        } else if i == k {
            assert(t[j] == s[j - 1]);
        } else {
            assert(t[i] == s[i - 1]);
            assert(t[j] == s[j - 1]);
        }
    }
}

/// An event reaches exactly the subscribers to its type, each once and in
/// list order: `delivery_order` lists, in increasing order, exactly the
/// positions of the subscribers to `topic`.
pub proof fn law_delivery_exactly_to_topic<H>(s: Seq<Subscriber<H>>, topic: std::any::TypeId)
    requires
        s.len() <= usize::MAX,
    ensures
        forall|k: int|
            0 <= k < delivery_order(s, topic).len() ==> {
                &&& delivery_order(s, topic)[k] < s.len()
                &&& s[delivery_order(s, topic)[k] as int].topic == topic
            },
        forall|k: int, l: int|
            0 <= k < l < delivery_order(s, topic).len() ==> delivery_order(s, topic)[k]
                < delivery_order(s, topic)[l],
        forall|i: int|
            0 <= i < s.len() && s[i].topic == topic ==> delivery_order(s, topic).contains(
                i as usize,
            ),
    decreases s.len(),
{
    if s.len() > 0 {
        let t = s.drop_last();
        law_delivery_exactly_to_topic(t, topic);
        let d = delivery_order(s, topic);
        let dt = delivery_order(t, topic);
        let last = (s.len() - 1) as usize;
        assert(last as int == s.len() - 1);
        assert forall|k: int| 0 <= k < d.len() implies d[k] < s.len() && s[d[k] as int].topic
            == topic by {
            if k < dt.len() {
                assert(d[k] == dt[k]);
                assert(t[dt[k] as int] == s[dt[k] as int]);
            } else {
                assert(d[k] == last);
            }
        }
        assert forall|k: int, l: int| 0 <= k < l < d.len() implies d[k] < d[l] by {
            assert(d[k] == dt[k]);
            if l < dt.len() {
                assert(d[l] == dt[l]);
            } else {
                assert(d[l] == last);
            }
        }
        assert forall|i: int| 0 <= i < s.len() && s[i].topic == topic implies d.contains(
            i as usize,
        ) by {
            if i < s.len() - 1 {
                assert(t[i] == s[i]);
                let w = choose|w: int| 0 <= w < dt.len() && dt[w] == i as usize;
                assert(d[w] == dt[w]);
            } else {
                assert(d[d.len() - 1] == last);
            }
        }
    }
}

} // verus!
