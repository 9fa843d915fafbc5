use std::collections::VecDeque;
use vstd::prelude::*;

use crate::event::RecognitionEvent;

verus! {

/// What a subscriber finds when it reads from the hub.
#[derive(Debug)]
pub enum Received {
    /// The oldest event still waiting for this subscriber.
    Event(RecognitionEvent),
    /// This many events were evicted unread since the last read; reading
    /// again resumes with the oldest event kept.
    Lagged(u64),
    /// Nothing is waiting.
    Empty,
    /// No live subscription has this id.
    Unknown,
}

/// One subscription as a value.
pub struct SubView {
    pub id: u64,
    pub pending: Seq<RecognitionEvent>,
    pub missed: u64,
}

/// The hub as a value: per-subscriber buffer capacity, the id the next
/// subscription gets, and the live subscriptions in order of attachment.
pub struct HubView {
    pub capacity: nat,
    pub next_id: u64,
    pub subs: Seq<SubView>,
}

pub open spec fn hub_wf(h: HubView) -> bool {
    &&& h.capacity >= 1
    &&& forall|i: int| 0 <= i < h.subs.len() ==> #[trigger] h.subs[i].pending.len() <= h.capacity
    &&& forall|i: int| 0 <= i < h.subs.len() ==> #[trigger] h.subs[i].id < h.next_id
    &&& forall|i: int, j: int|
        0 <= i < h.subs.len() && 0 <= j < h.subs.len() && i != j ==> #[trigger] h.subs[i].id
            != #[trigger] h.subs[j].id
}

/// One more evicted event, counted up to the largest `u64`.
pub open spec fn one_more(n: u64) -> u64 {
    if n < u64::MAX {
        (n + 1) as u64
    } else {
        n
    }
}

/// A subscription after an event is published to it: a full buffer drops its
/// oldest event, and the drop is counted.
pub open spec fn deliver(s: SubView, e: RecognitionEvent, capacity: nat) -> SubView {
    if s.pending.len() >= capacity {
        SubView { id: s.id, pending: s.pending.drop_first().push(e), missed: one_more(s.missed) }
    } else {
        SubView { id: s.id, pending: s.pending.push(e), missed: s.missed }
    }
}

/// The hub after `e` is published.
pub open spec fn published(h: HubView, e: RecognitionEvent) -> HubView {
    HubView {
        capacity: h.capacity,
        next_id: h.next_id,
        subs: h.subs.map_values(|s: SubView| deliver(s, e, h.capacity)),
    }
}

/// The hub after a new subscription attaches: it gets the next id and an
/// empty buffer.
pub open spec fn subscribed(h: HubView) -> HubView {
    HubView {
        capacity: h.capacity,
        next_id: (h.next_id + 1) as u64,
        subs: h.subs.push(SubView { id: h.next_id, pending: Seq::empty(), missed: 0 }),
    }
}

/// A subscription after one read, and what the read returns: a pending lag
/// is reported first, then events oldest first.
pub open spec fn take_next(s: SubView) -> (SubView, Received) {
    if s.missed > 0 {
        (SubView { id: s.id, pending: s.pending, missed: 0 }, Received::Lagged(s.missed))
    } else if s.pending.len() > 0 {
        (
            SubView { id: s.id, pending: s.pending.drop_first(), missed: 0 },
            Received::Event(s.pending[0]),
        )
    } else {
        (s, Received::Empty)
    }
}

pub open spec fn holds_id(h: HubView, id: u64) -> bool {
    exists|i: int| 0 <= i < h.subs.len() && #[trigger] h.subs[i].id == id
}

#[derive(Debug)]
struct Subscriber {
    id: u64,
    pending: VecDeque<RecognitionEvent>,
    missed: u64,
}

impl View for Subscriber {
    type V = SubView;

    closed spec fn view(&self) -> SubView {
        SubView { id: self.id, pending: self.pending@, missed: self.missed }
    }
}

/// Single-producer, multi-consumer fan-out of recognition events. Every
/// subscriber has its own bounded buffer; publishing never waits for a
/// reader, and a reader that falls behind loses its oldest events and is told
/// how many.
#[derive(Debug)]
pub struct Hub {
    capacity: usize,
    next_id: u64,
    subscribers: Vec<Subscriber>,
}

impl View for Hub {
    type V = HubView;

    closed spec fn view(&self) -> HubView {
        HubView {
            capacity: self.capacity as nat,
            next_id: self.next_id,
            subs: self.subscribers@.map_values(|s: Subscriber| s@),
        }
    }
}

impl Hub {
    /// A hub with no subscribers whose per-subscriber buffers hold `capacity`
    /// events.
    pub fn new(capacity: usize) -> (r: Self)
        requires
            capacity >= 1,
        ensures
            hub_wf(r@),
            r@.capacity == capacity,
            r@.next_id == 0,
            r@.subs.len() == 0,
    {
        let r = Hub { capacity, next_id: 0, subscribers: Vec::new() };
        assert(r@.subs =~= Seq::<SubView>::empty());
        r
    }

    pub fn subscriber_count(&self) -> (r: usize)
        ensures
            r == self@.subs.len(),
    {
        self.subscribers.len()
    }

    /// Attaches a subscriber that will see only events published from now
    /// on. Gives no id once every `u64` has been handed out.
    pub fn subscribe(&mut self) -> (r: Option<u64>)
        requires
            hub_wf(old(self)@),
        ensures
            hub_wf(final(self)@),
            old(self)@.next_id < u64::MAX ==> r == Some(old(self)@.next_id) && final(self)@
                == subscribed(old(self)@),
            old(self)@.next_id == u64::MAX ==> r is None && final(self)@ == old(self)@,
    {
        if self.next_id == u64::MAX {
            return None;
        }
        let id = self.next_id;
        let ghost before = self@;
        self.subscribers.push(Subscriber { id, pending: VecDeque::new(), missed: 0 });
        self.next_id = id + 1;
        assert(self@.subs =~= subscribed(before).subs);
        Some(id)
    }

    /// Detaches the subscriber `id`, dropping whatever it had not read.
    /// Reports whether it was attached.
    pub fn unsubscribe(&mut self, id: u64) -> (r: bool)
        requires
            hub_wf(old(self)@),
        ensures
            hub_wf(final(self)@),
            r == holds_id(old(self)@, id),
            !r ==> final(self)@ == old(self)@,
            forall|i: int|
                0 <= i < old(self)@.subs.len() && #[trigger] old(self)@.subs[i].id == id
                    ==> final(self)@ == (HubView {
                    capacity: old(self)@.capacity,
                    next_id: old(self)@.next_id,
                    subs: old(self)@.subs.remove(i),
                }),
    {
        let ghost before = self@;
        assert(before == old(self)@);
        let mut i: usize = 0;
        while i < self.subscribers.len()
            invariant
                self@ == before,
                before == old(self)@,
                hub_wf(before),
                i <= self.subscribers@.len(),
                forall|k: int| 0 <= k < i ==> #[trigger] before.subs[k].id != id,
            decreases self.subscribers@.len() - i,
        {
            if self.subscribers[i].id == id {
                assert(before.subs[i as int].id == id);
                self.subscribers.remove(i);
                assert(self@.subs =~= before.subs.remove(i as int));
                assert(holds_id(before, id));
                proof {
                    let h = self@;
                    assert forall|k: int| 0 <= k < h.subs.len() implies #[trigger] h.subs[k].pending.len() <= h.capacity by {
                        if k < i {
                            assert(h.subs[k] == before.subs[k]);
                        } else {
                            assert(h.subs[k] == before.subs[k + 1]);
                        }
                    }
                    assert forall|k: int| 0 <= k < h.subs.len() implies #[trigger] h.subs[k].id < h.next_id by {
                        if k < i {
                            assert(h.subs[k] == before.subs[k]);
                        } else {
                            assert(h.subs[k] == before.subs[k + 1]);
                        }
                    }
                    assert forall|k: int, j: int|
                        0 <= k < h.subs.len() && 0 <= j < h.subs.len() && k != j implies #[trigger] h.subs[k].id
                            != #[trigger] h.subs[j].id by {
                        let k2 = if k < i { k } else { k + 1 };
                        let j2 = if j < i { j } else { j + 1 };
                        assert(h.subs[k] == before.subs[k2]);
                        assert(h.subs[j] == before.subs[j2]);
                    }
                    assert forall|k: int|
                        0 <= k < before.subs.len() && #[trigger] before.subs[k].id == id implies k == i by {
                        assert(before.subs[i as int].id == id);
                    }
                }
                return true;
            }
            i = i + 1;
        }
        assert(!holds_id(before, id));
        false
    }

    /// Publishes `event` to every live subscriber.
    pub fn publish(&mut self, event: RecognitionEvent)
        requires
            hub_wf(old(self)@),
        ensures
            hub_wf(final(self)@),
            final(self)@ == published(old(self)@, event),
    {
        let ghost before = self@;
        let ghost start = self.subscribers@;
        let mut i: usize = 0;
        while i < self.subscribers.len()
            invariant
                self.capacity == before.capacity,
                self.next_id == before.next_id,
                before == (HubView {
                    capacity: self.capacity as nat,
                    next_id: self.next_id,
                    subs: start.map_values(|s: Subscriber| s@),
                }),
                before.capacity >= 1,
                i <= self.subscribers@.len(),
                self.subscribers@.len() == start.len(),
                forall|k: int|
                    0 <= k < i ==> #[trigger] self.subscribers@[k]@ == deliver(
                        start[k]@,
                        event,
                        before.capacity,
                    ),
                forall|k: int| i <= k < start.len() ==> #[trigger] self.subscribers@[k] == start[k],
            decreases self.subscribers@.len() - i,
        {
            let cap = self.capacity;
            deliver_to(&mut self.subscribers[i], event.clone(), cap);
            i = i + 1;
        }
        assert(self@.subs =~= published(before, event).subs);
        proof {
            let h = self@;
            assert forall|k: int| 0 <= k < h.subs.len() implies #[trigger] h.subs[k].pending.len() <= h.capacity by {
                assert(before.subs[k] == start[k]@);
            }
            assert forall|k: int| 0 <= k < h.subs.len() implies #[trigger] h.subs[k].id < h.next_id by {
                assert(before.subs[k] == start[k]@);
            }
            assert forall|k: int, j: int|
                0 <= k < h.subs.len() && 0 <= j < h.subs.len() && k != j implies #[trigger] h.subs[k].id
                    != #[trigger] h.subs[j].id by {
                assert(before.subs[k] == start[k]@);
                assert(before.subs[j] == start[j]@);
            }
        }
    }

    /// Reads the next thing waiting for subscriber `id`.
    pub fn receive(&mut self, id: u64) -> (r: Received)
        requires
            hub_wf(old(self)@),
        ensures
            hub_wf(final(self)@),
            !holds_id(old(self)@, id) ==> r is Unknown && final(self)@ == old(self)@,
            forall|i: int|
                0 <= i < old(self)@.subs.len() && #[trigger] old(self)@.subs[i].id == id ==> {
                    &&& r == take_next(old(self)@.subs[i]).1
                    &&& final(self)@ == (HubView {
                        capacity: old(self)@.capacity,
                        next_id: old(self)@.next_id,
                        subs: old(self)@.subs.update(i, take_next(old(self)@.subs[i]).0),
                    })
                },
    {
        let ghost before = self@;
        assert(before == old(self)@);
        let mut i: usize = 0;
        while i < self.subscribers.len()
            invariant
                self@ == before,
                before == old(self)@,
                hub_wf(before),
                i <= self.subscribers@.len(),
                forall|k: int| 0 <= k < i ==> #[trigger] before.subs[k].id != id,
            decreases self.subscribers@.len() - i,
        {
            if self.subscribers[i].id == id {
                assert(before.subs[i as int].id == id);
                let r = take_from(&mut self.subscribers[i]);
                assert(self@.subs =~= before.subs.update(i as int, take_next(before.subs[i as int]).0));
                proof {
                    let h = self@;
                    assert forall|k: int| 0 <= k < h.subs.len() implies #[trigger] h.subs[k].pending.len() <= h.capacity by {
                        assert(k != i ==> h.subs[k] == before.subs[k]);
                    }
                    assert forall|k: int| 0 <= k < h.subs.len() implies #[trigger] h.subs[k].id < h.next_id by {
                        assert(k != i ==> h.subs[k] == before.subs[k]);
                    }
                    assert forall|k: int, j: int|
                        0 <= k < h.subs.len() && 0 <= j < h.subs.len() && k != j implies #[trigger] h.subs[k].id
                            != #[trigger] h.subs[j].id by {
                        assert(h.subs[k].id == before.subs[k].id);
                        assert(h.subs[j].id == before.subs[j].id);
                    }
                    assert forall|k: int|
                        0 <= k < before.subs.len() && #[trigger] before.subs[k].id == id implies k == i by {
                        assert(before.subs[i as int].id == id);
                    }
                }
                return r;
            }
            i = i + 1;
        }
        Received::Unknown
    }
}

fn deliver_to(sub: &mut Subscriber, event: RecognitionEvent, capacity: usize)
    requires
        capacity >= 1,
    ensures
        final(sub)@ == deliver(old(sub)@, event, capacity as nat),
{
    if sub.pending.len() >= capacity {
        sub.pending.pop_front();
        if sub.missed < u64::MAX {
            sub.missed = sub.missed + 1;
        }
    }
    sub.pending.push_back(event);
    assert(sub@.pending =~= deliver(old(sub)@, event, capacity as nat).pending);
}

fn take_from(sub: &mut Subscriber) -> (r: Received)
    ensures
        final(sub)@ == take_next(old(sub)@).0,
        r == take_next(old(sub)@).1,
{
    if sub.missed > 0 {
        let n = sub.missed;
        sub.missed = 0;
        Received::Lagged(n)
    } else {
        match sub.pending.pop_front() {
            Some(e) => {
                assert(sub@.pending =~= old(sub)@.pending.drop_first());
                Received::Event(e)
            },
            None => Received::Empty,
        }
    }
}

/// Every subscriber attached when an event is published receives that same
/// event: it becomes the newest one waiting for each of them, and one that
/// had nothing waiting and no lag reads exactly it next. A subscriber that
/// attaches afterwards has nothing waiting, so it never receives that event;
/// the first event it can read is one published after it attached.
pub proof fn lemma_fanout_reaches_current_subscribers(
    h: HubView,
    e: RecognitionEvent,
    later: RecognitionEvent,
)
    requires
        hub_wf(h),
        h.next_id < u64::MAX,
    ensures
        published(h, e).subs.len() == h.subs.len(),
        forall|i: int|
            0 <= i < h.subs.len() ==> {
                &&& (#[trigger] published(h, e).subs[i]).id == h.subs[i].id
                &&& published(h, e).subs[i].pending.last() == e
                &&& (h.subs[i].pending.len() == 0 && h.subs[i].missed == 0) ==> take_next(
                    published(h, e).subs[i],
                ).1 == Received::Event(e)
            },
        subscribed(published(h, e)).subs.last().pending.len() == 0,
        take_next(subscribed(published(h, e)).subs.last()).1 == Received::Empty,
        published(subscribed(published(h, e)), later).subs.last().pending == seq![later],
        take_next(published(subscribed(published(h, e)), later).subs.last()).1 == Received::Event(
            later,
        ),
{
    let h1 = published(h, e);
    let h2 = subscribed(h1);
    let h3 = published(h2, later);
    assert(h2.subs.last() == h2.subs[h2.subs.len() - 1]);
    assert(h3.subs.last() == deliver(h2.subs.last(), later, h2.capacity));
    assert(h3.subs.last().pending =~= seq![later]);
}

/// A subscriber whose buffer is full when an event is published loses its
/// oldest waiting event and keeps the new one, and its next read reports the
/// lag. Every other subscriber gets the event exactly as it would if the slow
/// one were not attached at all.
pub proof fn lemma_overrun_is_isolated(h: HubView, e: RecognitionEvent, slow: int)
    requires
        hub_wf(h),
        0 <= slow < h.subs.len(),
        h.subs[slow].pending.len() == h.capacity,
    ensures
        published(h, e).subs[slow].pending == h.subs[slow].pending.drop_first().push(e),
        published(h, e).subs[slow].missed > 0,
        published(h, e).subs[slow].missed == one_more(h.subs[slow].missed),
        take_next(published(h, e).subs[slow]).1 == Received::Lagged(one_more(h.subs[slow].missed)),
        published(
            HubView { capacity: h.capacity, next_id: h.next_id, subs: h.subs.remove(slow) },
            e,
        ).subs == published(h, e).subs.remove(slow),
{
    let others = HubView { capacity: h.capacity, next_id: h.next_id, subs: h.subs.remove(slow) };
    assert(published(others, e).subs =~= published(h, e).subs.remove(slow));
}

/// Every subscriber sees events in publish order: when its buffer holds at
/// least two events, publishing `first` and then `second` leaves them as its
/// two newest waiting events, in that order.
pub proof fn lemma_publish_order(h: HubView, first: RecognitionEvent, second: RecognitionEvent, i: int)
    requires
        hub_wf(h),
        0 <= i < h.subs.len(),
        h.capacity >= 2,
    ensures
        ({
            let p = published(published(h, first), second).subs[i].pending;
            &&& p.len() >= 2
            &&& p[p.len() - 2] == first
            &&& p[p.len() - 1] == second
        }),
{
    let h1 = published(h, first);
    let s1 = h1.subs[i];
    assert(s1 == deliver(h.subs[i], first, h.capacity));
    assert(s1.pending.len() >= 1 && s1.pending.last() == first);
    assert(s1.pending.len() <= h.capacity);
    let s2 = published(h1, second).subs[i];
    assert(s2 == deliver(s1, second, h.capacity));
    if s1.pending.len() >= h.capacity {
        assert(s2.pending == s1.pending.drop_first().push(second));
        assert(s1.pending.drop_first().last() == first);
    } else {
        assert(s2.pending == s1.pending.push(second));
    }
}

/// The hub after each of `es` is published in turn.
pub open spec fn published_all(h: HubView, es: Seq<RecognitionEvent>) -> HubView
    decreases es.len(),
{
    if es.len() == 0 {
        h
    } else {
        published(published_all(h, es.drop_last()), es.last())
    }
}

/// A subscription after each of `es` is published to it in turn.
pub open spec fn deliver_all(s: SubView, es: Seq<RecognitionEvent>, capacity: nat) -> SubView
    decreases es.len(),
{
    if es.len() == 0 {
        s
    } else {
        deliver(deliver_all(s, es.drop_last(), capacity), es.last(), capacity)
    }
}

/// The newest `capacity` events of `all`, in order.
pub open spec fn newest(all: Seq<RecognitionEvent>, capacity: nat) -> Seq<RecognitionEvent> {
    if all.len() <= capacity {
        all
    } else {
        all.subrange(all.len() - capacity, all.len() as int)
    }
}

/// Publishing several events reaches each subscriber on its own: the
/// subscriber's state afterwards depends only on its own state before and
/// on the events, never on the other subscribers.
pub proof fn lemma_publish_all_per_subscriber(h: HubView, es: Seq<RecognitionEvent>, i: int)
    requires
        0 <= i < h.subs.len(),
    ensures
        published_all(h, es).subs.len() == h.subs.len(),
        published_all(h, es).capacity == h.capacity,
        published_all(h, es).subs[i] == deliver_all(h.subs[i], es, h.capacity),
    decreases es.len(),
{
    if es.len() > 0 {
        lemma_publish_all_per_subscriber(h, es.drop_last(), i);
    }
}

/// Whatever number of events is published, a subscriber keeps the newest
/// ones that fit its buffer, in publish order. One that had room for all of
/// them receives every one with no lag; one whose buffer overflowed lost the
/// oldest ones and has a lag to report before it reads on.
pub proof fn lemma_deliver_all(s: SubView, es: Seq<RecognitionEvent>, capacity: nat)
    requires
        capacity >= 1,
        s.pending.len() <= capacity,
    ensures
        deliver_all(s, es, capacity).id == s.id,
        deliver_all(s, es, capacity).pending == newest(s.pending + es, capacity),
        s.pending.len() + es.len() <= capacity ==> deliver_all(s, es, capacity).missed == s.missed,
        s.pending.len() + es.len() > capacity ==> deliver_all(s, es, capacity).missed > 0,
    decreases es.len(),
{
    if es.len() == 0 {
        assert(s.pending + es =~= s.pending);
    } else {
        let prev = es.drop_last();
        let e = es.last();
        lemma_deliver_all(s, prev, capacity);
        let d = deliver_all(s, prev, capacity);
        let all0 = s.pending + prev;
        let all = s.pending + es;
        assert(all =~= all0.push(e));
        if all0.len() < capacity {
            assert(d.pending == all0);
        } else if all0.len() == capacity {
            assert(d.pending == all0);
            assert(d.pending.drop_first().push(e) =~= all.subrange(all.len() - capacity, all.len() as int));
        } else {
            assert(d.pending == all0.subrange(all0.len() - capacity, all0.len() as int));
            assert(d.pending.drop_first().push(e) =~= all.subrange(all.len() - capacity, all.len() as int));
        }
    }
}

} // verus!
