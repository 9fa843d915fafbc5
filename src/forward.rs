use std::collections::VecDeque;
use vstd::prelude::*;

verus! {

/// Capacity of the forwarding queue when none is configured.
pub const DEFAULT_QUEUE_CAPACITY: usize = 128;

/// Why an entry was not queued for delivery.
#[derive(Clone, Copy, Debug, PartialEq, Eq, Structural)]
pub enum ForwardError {
    /// The queue held its capacity: the new entry is dropped.
    QueueFull,
    /// The queue was closed: no entry is taken any more.
    Closed,
}

/// What the delivery worker does next.
#[derive(Debug)]
pub enum WorkerStep {
    /// Deliver this transcript, the oldest one queued.
    Deliver(String),
    /// Nothing is queued yet: wait for an entry.
    Wait,
    /// The queue is closed and drained: the worker ends.
    Stop,
}

/// The queue as a value.
pub struct ForwardView {
    pub capacity: nat,
    pub items: Seq<Seq<char>>,
    pub closed: bool,
}

pub open spec fn forward_wf(q: ForwardView) -> bool {
    q.capacity >= 1 && q.items.len() <= q.capacity
}

/// The queue after a transcript is offered to it. Full or closed: unchanged,
/// the newest entry is the one dropped.
pub open spec fn offer(q: ForwardView, t: Seq<char>) -> ForwardView {
    if q.closed || q.items.len() >= q.capacity {
        q
    } else {
        ForwardView { capacity: q.capacity, items: q.items.push(t), closed: q.closed }
    }
}

/// The queue after each of `ts` is offered in turn.
pub open spec fn offer_all(q: ForwardView, ts: Seq<Seq<char>>) -> ForwardView
    decreases ts.len(),
{
    if ts.len() == 0 {
        q
    } else {
        offer(offer_all(q, ts.drop_last()), ts.last())
    }
}

/// Bounded queue between the event source and the single delivery worker.
/// On a full queue the newest entry is dropped at once: the audio thread that
/// enqueues never waits, at the price of losing transcripts when delivery
/// falls behind.
#[derive(Debug)]
pub struct ForwardQueue {
    capacity: usize,
    items: VecDeque<String>,
    closed: bool,
}

impl View for ForwardQueue {
    type V = ForwardView;

    closed spec fn view(&self) -> ForwardView {
        ForwardView {
            capacity: self.capacity as nat,
            items: self.items@.map_values(|s: String| s@),
            closed: self.closed,
        }
    }
}

impl ForwardQueue {
    /// An open, empty queue holding at most `capacity` entries.
    pub fn new(capacity: usize) -> (r: Self)
        requires
            capacity >= 1,
        ensures
            forward_wf(r@),
            r@.capacity == capacity,
            r@.items.len() == 0,
            !r@.closed,
    {
        let r = ForwardQueue { capacity, items: VecDeque::new(), closed: false };
        assert(r@.items =~= Seq::<Seq<char>>::empty());
        r
    }

    pub fn len(&self) -> (r: usize)
        ensures
            r == self@.items.len(),
    {
        self.items.len()
    }

    pub fn capacity(&self) -> (r: usize)
        ensures
            r == self@.capacity,
    {
        self.capacity
    }

    pub fn is_closed(&self) -> (r: bool)
        ensures
            r == self@.closed,
    {
        self.closed
    }

    /// Queues a finalized transcript for delivery, or drops it at once when the
    /// queue is full or closed.
    pub fn enqueue(&mut self, text: String) -> (r: Result<(), ForwardError>)
        requires
            forward_wf(old(self)@),
        ensures
            forward_wf(final(self)@),
            final(self)@ == offer(old(self)@, text@),
            old(self)@.closed ==> r == Err::<(), ForwardError>(ForwardError::Closed),
            !old(self)@.closed && old(self)@.items.len() >= old(self)@.capacity ==> r == Err::<
                (),
                ForwardError,
            >(ForwardError::QueueFull),
            !old(self)@.closed && old(self)@.items.len() < old(self)@.capacity ==> r is Ok,
    {
        if self.closed {
            return Err(ForwardError::Closed);
        }
        if self.items.len() >= self.capacity {
            return Err(ForwardError::QueueFull);
        }
        let ghost before = self@;
        self.items.push_back(text);
        assert(self@.items =~= before.items.push(text@));
        Ok(())
    }

    /// Marks the end of the entries: the worker drains what is queued and stops.
    pub fn close(&mut self)
        requires
            forward_wf(old(self)@),
        ensures
            forward_wf(final(self)@),
            final(self)@ == (ForwardView {
                capacity: old(self)@.capacity,
                items: old(self)@.items,
                closed: true,
            }),
    {
        self.closed = true;
    }

    /// Takes the oldest queued transcript for the worker, or tells it to wait
    /// or to stop. Each queued entry is handed out exactly once, in order.
    pub fn next_step(&mut self) -> (r: WorkerStep)
        requires
            forward_wf(old(self)@),
        ensures
            forward_wf(final(self)@),
            old(self)@.items.len() > 0 ==> (r matches WorkerStep::Deliver(t) && t@
                == old(self)@.items[0] && final(self)@ == (ForwardView {
                capacity: old(self)@.capacity,
                items: old(self)@.items.drop_first(),
                closed: old(self)@.closed,
            })),
            old(self)@.items.len() == 0 ==> final(self)@ == old(self)@ && (if old(self)@.closed {
                r is Stop
            } else {
                r is Wait
            }),
    {
        let ghost before = self@;
        match self.items.pop_front() {
            Some(t) => {
                assert(self@.items =~= before.items.drop_first());
                WorkerStep::Deliver(t)
            },
            None => {
                if self.closed {
                    WorkerStep::Stop
                } else {
                    WorkerStep::Wait
                }
            },
        }
    }
}

/// Under the drop-newest policy the queue never holds more than its capacity,
/// whatever is offered. When an open, empty queue of capacity N is offered
/// N + 1 transcripts, the last one is refused and what the worker will drain
/// is exactly the first N, in order: it never sees the dropped entry.
pub proof fn lemma_drop_newest(q: ForwardView, ts: Seq<Seq<char>>)
    requires
        forward_wf(q),
    ensures
        forward_wf(offer_all(q, ts)),
        offer_all(q, ts).capacity == q.capacity,
        offer_all(q, ts).items.len() <= q.capacity,
        (q.items.len() == 0 && !q.closed && ts.len() == q.capacity + 1) ==> offer_all(q, ts).items
            == ts.take(q.capacity as int),
    decreases ts.len(),
{
    if ts.len() > 0 {
        lemma_drop_newest(q, ts.drop_last());
        if q.items.len() == 0 && !q.closed && ts.len() == q.capacity + 1 {
            lemma_fill_open_queue(q, ts.drop_last());
            assert(ts.drop_last() =~= ts.take(q.capacity as int));
        }
    }
}

/// Offering an open, empty queue no more transcripts than it holds accepts
/// them all, in order.
pub proof fn lemma_fill_open_queue(q: ForwardView, ts: Seq<Seq<char>>)
    requires
        forward_wf(q),
        q.items.len() == 0,
        !q.closed,
        ts.len() <= q.capacity,
    ensures
        offer_all(q, ts).items == ts,
        offer_all(q, ts).capacity == q.capacity,
        !offer_all(q, ts).closed,
    decreases ts.len(),
{
    if ts.len() == 0 {
        assert(ts =~= Seq::<Seq<char>>::empty());
    } else {
        lemma_fill_open_queue(q, ts.drop_last());
        assert(ts.drop_last().push(ts.last()) =~= ts);
    }
}

} // verus!
