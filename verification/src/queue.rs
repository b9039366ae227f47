//! The queue of events of the simulator. Each endpoint has four heaps, so
//! that the next event is found without searching: the events of the base
//! trace, the packets that blocking holds back, the packets that pass
//! through blocking that can be bypassed, and everything else.

use vstd::prelude::*;
use vstd::multiset::Multiset;
use crate::framework::TriggerEvent;
use crate::heap::EventHeap;
use crate::sim_event::SimEvent;
use crate::time::{Duration, Instant};

verus! {

/// Names one of the four heaps of an endpoint.
#[derive(Clone, Copy, Debug, PartialEq, Eq, Structural, Hash)]
pub enum Queue {
    /// Tunnel packets that blocking holds back.
    Blocking,
    /// Tunnel packets that pass through blocking that can be bypassed.
    Bypassable,
    /// All events that are neither tunnel packets nor of the base trace.
    Internal,
    /// The packets of the base trace. Their times are those of the trace:
    /// the network delay that the simulation has added so far is still to
    /// be added.
    Base,
}

/// The event behind an optional reference.
pub open spec fn event_of(r: Option<&SimEvent>) -> Option<SimEvent> {
    match r {
        Some(e) => Some(*e),
        None => None,
    }
}

/// Whether `a`, moved `delay` into the future, comes strictly before `b`.
/// An event comes before no event; no event comes before nothing.
pub open spec fn precedes(a: Option<SimEvent>, b: Option<SimEvent>, delay: Duration) -> bool {
    match (a, b) {
        (Some(a), Some(b)) => a.precedes(b, delay),
        (Some(_), None) => true,
        _ => false,
    }
}

/// The heap that an event belongs to.
pub open spec fn route(item: SimEvent) -> Queue {
    match item.event {
        TriggerEvent::TunnelSent => if item.bypass {
            Queue::Bypassable
        } else {
            Queue::Blocking
        },
        TriggerEvent::NormalSent { .. } => Queue::Base,
        _ => Queue::Internal,
    }
}

/// The time at which an event of heap `q` happens once the network delay
/// is counted: only the times of the base trace are moved by it.
pub open spec fn effective_micros(e: SimEvent, q: Queue, delay: Duration) -> int {
    if q == Queue::Base {
        e.time.micros + delay.micros
    } else {
        e.time.micros as int
    }
}

/// How long it is from `now` until the event happens; nothing if the event
/// is already due.
pub open spec fn micros_until(e: SimEvent, q: Queue, delay: Duration, now: Instant) -> int {
    if effective_micros(e, q, delay) >= now.micros {
        effective_micros(e, q, delay) - now.micros
    } else {
        0
    }
}

/// A number of microseconds as a span, held to the longest span there is.
pub open spec fn held(micros: int) -> Duration {
    if micros > u64::MAX {
        Duration { micros: u64::MAX }
    } else {
        Duration { micros: micros as u64 }
    }
}

/// An event as it leaves heap `q`: an event of the base trace with the
/// delay added to its time, held to the latest time there is; any other
/// event as it is.
pub open spec fn leaving(e: SimEvent, q: Queue, delay: Duration) -> SimEvent {
    if q == Queue::Base {
        SimEvent { time: e.time.plus(delay), ..e }
    } else {
        e
    }
}

/// An event leaves with its effective time, where that time can be
/// counted, and is otherwise as it was.
pub proof fn law_leaving_at_effective_time(e: SimEvent, q: Queue, delay: Duration)
    ensures
        effective_micros(e, q, delay) <= u64::MAX ==> leaving(e, q, delay).time.micros
            == effective_micros(e, q, delay),
        leaving(e, q, delay) == (SimEvent { time: leaving(e, q, delay).time, ..e }),
        q != Queue::Base ==> leaving(e, q, delay) == e,
{
}

/// Whether `a` of heap `qa` comes strictly before `b` of heap `qb`, by
/// effective time and then by rank.
pub open spec fn effectively_earlier(
    a: SimEvent,
    qa: Queue,
    b: SimEvent,
    qb: Queue,
    delay: Duration,
) -> bool {
    effective_micros(a, qa, delay) < effective_micros(b, qb, delay) || (effective_micros(
        a,
        qa,
        delay,
    ) == effective_micros(b, qb, delay) && a.rank() < b.rank())
}

/// Whether `a`, moved `a_network_delay_sum` into the future, comes
/// strictly before `b`.
pub fn before(a: Option<&SimEvent>, b: Option<&SimEvent>, a_network_delay_sum: Duration) -> (r:
    bool)
    ensures
        r == precedes(event_of(a), event_of(b), a_network_delay_sum),
{
    match (a, b) {
        (Some(a), Some(b)) => a.is_before(b, a_network_delay_sum),
        (Some(_), None) => true,
        _ => false,
    }
}

/// For every delay, coming before is a strict order: nothing comes before
/// itself, no two events come before each other, and what comes before an
/// event comes before all that the event comes before.
pub proof fn law_before_is_strict_order(
    a: Option<SimEvent>,
    b: Option<SimEvent>,
    c: Option<SimEvent>,
    delay: Duration,
)
    ensures
        !precedes(a, a, delay),
        precedes(a, b, delay) ==> !precedes(b, a, delay),
        precedes(a, b, delay) && precedes(b, c, delay) ==> precedes(a, c, delay),
{
}

/// Without a delay, coming before is a strict weak order: two events of
/// which neither comes before the other stand in the same place of the
/// order, so being in the same place carries over from `a` and `b`, `b`
/// and `c` to `a` and `c`.
pub proof fn law_before_is_weak_order(a: Option<SimEvent>, b: Option<SimEvent>, c: Option<SimEvent>)
    ensures
        ({
            let zero = Duration { micros: 0 };
            !precedes(a, b, zero) && !precedes(b, a, zero) && !precedes(b, c, zero) && !precedes(
                c,
                b,
                zero,
            ) ==> !precedes(a, c, zero) && !precedes(c, a, zero)
        }),
{
}

/// The events that wait at one endpoint.
#[derive(Clone, Debug)]
pub struct EventQueue {
    base: EventHeap,
    blocking: EventHeap,
    bypassable: EventHeap,
    internal: EventHeap,
}

/// What [`EventQueue::peek`] and [`SimQueue::peek`] find: the event, its
/// heap, and how long it is until the event.
pub type Found = (Option<SimEvent>, Queue, Duration);

impl EventQueue {
    /// One of the four heaps.
    pub closed spec fn heap(&self, q: Queue) -> EventHeap {
        match q {
            Queue::Blocking => self.blocking,
            Queue::Bypassable => self.bypassable,
            Queue::Internal => self.internal,
            Queue::Base => self.base,
        }
    }

    /// How many events wait.
    pub open spec fn total(&self) -> nat {
        self.heap(Queue::Blocking).count() + self.heap(Queue::Bypassable).count() + self.heap(
            Queue::Internal,
        ).count() + self.heap(Queue::Base).count()
    }

    /// Whether an event waits in heap `q`.
    pub open spec fn holds(&self, q: Queue, e: SimEvent) -> bool {
        self.heap(q)@.contains(e)
    }

    /// Each heap is in order and holds only events that belong to it, and
    /// the number of events can be counted.
    pub open spec fn wf(&self) -> bool {
        &&& self.heap(Queue::Blocking).wf()
        &&& self.heap(Queue::Bypassable).wf()
        &&& self.heap(Queue::Internal).wf()
        &&& self.heap(Queue::Base).wf()
        &&& self.total() <= usize::MAX
        &&& forall|q: Queue, e: SimEvent| #[trigger] self.holds(q, e) ==> route(e) == q
    }

    /// The event at the top of heap `q`, if there is one.
    pub open spec fn top(&self, q: Queue) -> Option<SimEvent> {
        self.heap(q).top()
    }

    /// The first of the events at the top of the heaps that hold no event
    /// of the base trace, and its heap.
    pub open spec fn first_generated(&self) -> (Option<SimEvent>, Queue) {
        let zero = Duration { micros: 0 };
        let first = (self.top(Queue::Blocking), Queue::Blocking);
        let first = if precedes(self.top(Queue::Bypassable), first.0, zero) {
            (self.top(Queue::Bypassable), Queue::Bypassable)
        } else {
            first
        };
        if precedes(self.top(Queue::Internal), first.0, zero) {
            (self.top(Queue::Internal), Queue::Internal)
        } else {
            first
        }
    }

    /// The next event of this endpoint, its heap, and how long it is until
    /// the event.
    pub open spec fn next(&self, delay: Duration, now: Instant) -> Found {
        let (first, q) = self.first_generated();
        let base = self.top(Queue::Base);
        if self.total() == 0 {
            (None, Queue::Blocking, Duration { micros: 0 })
        } else if precedes(base, first, delay) {
            (
                base,
                Queue::Base,
                held(micros_until(base.unwrap(), Queue::Base, delay, now)),
            )
        } else {
            match first {
                Some(e) => (first, q, e.time.since(now)),
                None => (None, Queue::Blocking, Duration { micros: 0 }),
            }
        }
    }

    /// The earlier of the tops of the two heaps that blocking may hold
    /// back: of the blocking heap alone if the blocking can be bypassed.
    pub open spec fn next_blocking(&self, bypassable: bool) -> (Option<SimEvent>, Queue) {
        let zero = Duration { micros: 0 };
        if bypassable {
            (self.top(Queue::Blocking), Queue::Blocking)
        } else if precedes(self.top(Queue::Blocking), self.top(Queue::Bypassable), zero) {
            (self.top(Queue::Blocking), Queue::Blocking)
        } else {
            (self.top(Queue::Bypassable), Queue::Bypassable)
        }
    }

    /// The earlier of the tops of the internal heap and the base heap,
    /// without regard to network delay.
    pub open spec fn next_unblocked(&self) -> (Option<SimEvent>, Queue) {
        let zero = Duration { micros: 0 };
        if precedes(self.top(Queue::Internal), self.top(Queue::Base), zero) {
            (self.top(Queue::Internal), Queue::Internal)
        } else {
            (self.top(Queue::Base), Queue::Base)
        }
    }

    /// The earliest of the events that blocking does not hold back: the
    /// bypassable heap counts among them if the blocking can be bypassed.
    pub open spec fn next_non_blocking(&self, bypassable: bool) -> (Option<SimEvent>, Queue) {
        let zero = Duration { micros: 0 };
        if bypassable && precedes(self.top(Queue::Bypassable), self.next_unblocked().0, zero) {
            (self.top(Queue::Bypassable), Queue::Bypassable)
        } else {
            self.next_unblocked()
        }
    }

    /// The event at the top of a heap that is not empty is in that heap,
    /// and no event of that heap comes earlier.
    pub proof fn lemma_top_is_least(&self, q: Queue)
        requires
            self.wf(),
        ensures
            self.top(q).is_none() <==> self.heap(q).count() == 0,
            self.top(q).is_some() ==> self.holds(q, self.top(q).unwrap()),
            forall|e: SimEvent| #[trigger]
                self.holds(q, e) ==> self.top(q).is_some() && !e.earlier(self.top(q).unwrap()),
    {
        if self.heap(q).count() > 0 {
            self.heap(q).lemma_head_is_least();
        }
    }

    /// The next event of an endpoint is at the top of the heap that is
    /// named with it, and no event of the endpoint has an earlier
    /// effective time, or the same with a lower rank. There is no next
    /// event only if no event waits.
    pub proof fn law_next_is_least(&self, delay: Duration, now: Instant)
        requires
            self.wf(),
        ensures
            ({
                let (found, q, until) = self.next(delay, now);
                match found {
                    None => self.total() == 0,
                    Some(e) => {
                        &&& self.top(q) == Some(e)
                        &&& self.holds(q, e)
                        &&& until == held(micros_until(e, q, delay, now))
                        &&& forall|q2: Queue, x: SimEvent| #[trigger]
                            self.holds(q2, x) ==> !effectively_earlier(x, q2, e, q, delay)
                    },
                }
            }),
    {
        self.lemma_top_is_least(Queue::Blocking);
        self.lemma_top_is_least(Queue::Bypassable);
        self.lemma_top_is_least(Queue::Internal);
        self.lemma_top_is_least(Queue::Base);
    }

    /// An endpoint at which no event waits.
    pub fn new() -> (r: EventQueue)
        ensures
            r.wf(),
            r.total() == 0,
            forall|q: Queue| #[trigger] r.heap(q)@ == Multiset::<SimEvent>::empty(),
    {
        let r = EventQueue {
            base: EventHeap::new(),
            blocking: EventHeap::new(),
            bypassable: EventHeap::new(),
            internal: EventHeap::new(),
        };
        r
    }

    /// How many events wait.
    pub fn len(&self) -> (r: usize)
        requires
            self.wf(),
        ensures
            r == self.total(),
    {
        self.blocking.len() + self.bypassable.len() + self.internal.len() + self.base.len()
    }

    /// Adds an event to the heap that it belongs to.
    pub fn push(&mut self, item: SimEvent)
        requires
            old(self).wf(),
            old(self).total() < usize::MAX,
        ensures
            final(self).wf(),
            final(self).total() == old(self).total() + 1,
            final(self).heap(route(item))@ == old(self).heap(route(item))@.insert(item),
            forall|q: Queue| q != route(item) ==> #[trigger] final(self).heap(q) == old(self).heap(q),
    {
        match item.event {
            TriggerEvent::TunnelSent => {
                if item.bypass {
                    self.bypassable.push(item);
                } else {
                    self.blocking.push(item);
                }
            },
            TriggerEvent::NormalSent { .. } => {
                self.base.push(item);
            },
            _ => {
                self.internal.push(item);
            },
        }
        proof {
            assert forall|q: Queue, e: SimEvent| #[trigger] self.holds(q, e) implies route(e)
                == q by {
                if q == route(item) {
                    if e != item {
                        assert(old(self).holds(q, e));
                    }
                } else {
                    assert(old(self).holds(q, e));
                }
            }
        }
    }

    /// The next event of this endpoint, its heap, and how long it is from
    /// `current_time` until the event. The times of the base trace count
    /// with `network_delay_sum` added. A span that is too long to be
    /// counted is given as the longest span there is.
    pub fn peek(&self, network_delay_sum: Duration, current_time: Instant) -> (r: (
        Option<&SimEvent>,
        Queue,
        Duration,
    ))
        requires
            self.wf(),
        ensures
            (event_of(r.0), r.1, r.2) == self.next(network_delay_sum, current_time),
    {
        let zero = Duration { micros: 0 };
        if self.len() == 0 {
            return (None, Queue::Blocking, zero);
        }
        let mut first = self.blocking.peek();
        let mut q = Queue::Blocking;
        let n = self.bypassable.peek();
        if before(n, first, zero) {
            first = n;
            q = Queue::Bypassable;
        }
        let n = self.internal.peek();
        if before(n, first, zero) {
            first = n;
            q = Queue::Internal;
        }
        let n = self.base.peek();
        if before(n, first, network_delay_sum) {
            match n {
                Some(e) => {
                    let at: u128 = e.time.micros as u128 + network_delay_sum.micros as u128;
                    let now: u128 = current_time.micros as u128;
                    let until: u64 = if at < now {
                        0
                    } else if at - now > u64::MAX as u128 {
                        u64::MAX
                    } else {
                        (at - now) as u64
                    };
                    (n, Queue::Base, Duration { micros: until })
                },
                None => (None, Queue::Blocking, zero),
            }
        } else {
            match first {
                Some(e) => (first, q, e.time.duration_since(current_time)),
                None => (None, Queue::Blocking, zero),
            }
        }
    }

    /// Takes the event at the top of heap `q`, if there is one. An event
    /// of the base trace leaves with `network_delay_sum` added to its
    /// time, or with the latest time there is if the sum cannot be
    /// counted.
    pub fn pop(&mut self, q: Queue, network_delay_sum: Duration) -> (r: Option<SimEvent>)
        requires
            old(self).wf(),
        ensures
            final(self).wf(),
            forall|q2: Queue| q2 != q ==> #[trigger] final(self).heap(q2) == old(self).heap(q2),
            match old(self).top(q) {
                None => r.is_none() && final(self).heap(q)@ == old(self).heap(q)@,
                Some(e) => {
                    &&& r == Some(
                        leaving(e, q, network_delay_sum),
                    )
                    &&& final(self).heap(q)@ == old(self).heap(q)@.remove(e)
                    &&& final(self).total() == old(self).total() - 1
                },
            },
    {
        proof {
            self.lemma_top_is_least(q);
        }
        let r = match q {
            Queue::Blocking => self.blocking.pop(),
            Queue::Bypassable => self.bypassable.pop(),
            Queue::Internal => self.internal.pop(),
            Queue::Base => {
                match self.base.pop() {
                    Some(item) => {
                        let mut item = item;
                        item.time = item.time.saturating_add(network_delay_sum);
                        Some(item)
                    },
                    None => None,
                }
            },
        };
        proof {
            assert forall|q2: Queue, e: SimEvent| #[trigger] self.holds(q2, e) implies route(e)
                == q2 by {
                assert(old(self).holds(q2, e));
            }
        }
        r
    }

    /// The next event that blocking holds back even if it can be bypassed.
    pub fn peek_blocking(&self) -> (r: Option<&SimEvent>)
        requires
            self.wf(),
        ensures
            event_of(r) == self.top(Queue::Blocking),
    {
        self.blocking.peek()
    }

    /// The next event that passes through blocking that can be bypassed.
    pub fn peek_bypassable(&self) -> (r: Option<&SimEvent>)
        requires
            self.wf(),
        ensures
            event_of(r) == self.top(Queue::Bypassable),
    {
        self.bypassable.peek()
    }

    /// The earlier of the next internal event and the next event of the
    /// base trace, without regard to network delay.
    pub fn peek_non_blocking(&self) -> (r: (Option<&SimEvent>, Queue))
        requires
            self.wf(),
        ensures
            (event_of(r.0), r.1) == self.next_unblocked(),
    {
        let i = self.internal.peek();
        let b = self.base.peek();
        if before(i, b, Duration { micros: 0 }) {
            (i, Queue::Internal)
        } else {
            (b, Queue::Base)
        }
    }

    /// The time of the first event of the base trace, as the trace has it.
    pub fn get_first_base_time(&self) -> (r: Option<Instant>)
        requires
            self.wf(),
        ensures
            r == match self.top(Queue::Base) {
                Some(e) => Some(e.time),
                None => None,
            },
    {
        match self.base.peek() {
            Some(e) => Some(e.time),
            None => None,
        }
    }

    /// Takes the event at the top of the blocking heap, if there is one.
    fn pop_held(&mut self) -> (r: Option<SimEvent>)
        requires
            old(self).wf(),
        ensures
            final(self).wf(),
            r == old(self).top(Queue::Blocking),
            forall|q2: Queue|
                q2 != Queue::Blocking ==> #[trigger] final(self).heap(q2) == old(self).heap(q2),
            r.is_none() ==> final(self).heap(Queue::Blocking)@ == old(self).heap(Queue::Blocking)@,
            r.is_some() ==> final(self).heap(Queue::Blocking)@ == old(self).heap(
                Queue::Blocking,
            )@.remove(r.unwrap()) && final(self).total() == old(self).total() - 1,
    {
        self.pop(Queue::Blocking, Duration { micros: 0 })
    }
}

/// The next event of an endpoint that the current blocking holds back, and
/// its heap. Blocking that can be bypassed holds back the blocking heap
/// only; other blocking holds back the bypassable heap too.
pub fn peek_blocking(queue: &EventQueue, bypassable: bool) -> (r: (Option<&SimEvent>, Queue))
    requires
        queue.wf(),
    ensures
        (event_of(r.0), r.1) == queue.next_blocking(bypassable),
{
    if bypassable {
        (queue.peek_blocking(), Queue::Blocking)
    } else {
        let b = queue.peek_blocking();
        let bb = queue.peek_bypassable();
        if before(b, bb, Duration { micros: 0 }) {
            (b, Queue::Blocking)
        } else {
            (bb, Queue::Bypassable)
        }
    }
}

/// The next event of an endpoint that the current blocking lets pass, and
/// its heap, without regard to network delay.
pub fn peek_non_blocking(queue: &EventQueue, bypassable: bool) -> (r: (Option<&SimEvent>, Queue))
    requires
        queue.wf(),
    ensures
        (event_of(r.0), r.1) == queue.next_non_blocking(bypassable),
{
    if bypassable {
        let bb = queue.peek_bypassable();
        let (n, nq) = queue.peek_non_blocking();
        if before(bb, n, Duration { micros: 0 }) {
            (bb, Queue::Bypassable)
        } else {
            (n, nq)
        }
    } else {
        queue.peek_non_blocking()
    }
}

/// The queue of the simulator: the events of the client and those of the
/// server.
#[derive(Clone, Debug)]
pub struct SimQueue {
    client: EventQueue,
    server: EventQueue,
}

impl SimQueue {
    /// The events of one endpoint.
    pub closed spec fn endpoint(&self, is_client: bool) -> EventQueue {
        if is_client {
            self.client
        } else {
            self.server
        }
    }

    /// How many events wait.
    pub open spec fn total(&self) -> nat {
        self.endpoint(true).total() + self.endpoint(false).total()
    }

    /// Whether an event waits in heap `q` of an endpoint.
    pub open spec fn holds(&self, is_client: bool, q: Queue, e: SimEvent) -> bool {
        self.endpoint(is_client).holds(q, e)
    }

    /// Both endpoints are in order, each holds only its own events, and
    /// the number of events can be counted.
    pub open spec fn wf(&self) -> bool {
        &&& self.endpoint(true).wf()
        &&& self.endpoint(false).wf()
        &&& self.total() <= usize::MAX
        &&& forall|c: bool, q: Queue, e: SimEvent| #[trigger] self.holds(c, q, e) ==> e.client == c
    }

    /// The next event of the simulation, its heap, and how long it is
    /// until the event: of the next events of the two endpoints the one
    /// that is due sooner, or as soon with the lower rank; the server's if
    /// neither is.
    pub open spec fn next(&self, delay: Duration, now: Instant) -> Found {
        let c = self.endpoint(true).next(delay, now);
        let s = self.endpoint(false).next(delay, now);
        if self.total() == 0 {
            (None, Queue::Blocking, Duration { micros: 0 })
        } else {
            match (c.0, s.0) {
                (None, Some(_)) => s,
                (Some(_), None) => c,
                (None, None) => (None, Queue::Blocking, Duration { micros: 0 }),
                (Some(ce), Some(se)) => if c.2.micros < s.2.micros || (c.2.micros == s.2.micros
                    && ce.rank() < se.rank()) {
                    c
                } else {
                    s
                },
            }
        }
    }

    /// The next event of the simulation is at the top of the heap that is
    /// named with it, at the endpoint that the event belongs to; among the
    /// events of that endpoint none has an earlier effective time, or the
    /// same with a lower rank; and no event of either endpoint is due
    /// sooner, an event whose effective time has passed being due now.
    /// There is no next event only if no event waits.
    pub proof fn law_next_is_soonest(&self, delay: Duration, now: Instant)
        requires
            self.wf(),
        ensures
            ({
                let (found, q, until) = self.next(delay, now);
                match found {
                    None => self.total() == 0,
                    Some(e) => {
                        &&& self.endpoint(e.client).top(q) == Some(e)
                        &&& self.holds(e.client, q, e)
                        &&& until == held(micros_until(e, q, delay, now))
                        &&& forall|q2: Queue, x: SimEvent| #[trigger]
                            self.holds(e.client, q2, x) ==> !effectively_earlier(x, q2, e, q, delay)
                        &&& forall|c: bool, q2: Queue, x: SimEvent| #[trigger]
                            self.holds(c, q2, x) ==> until.micros <= micros_until(x, q2, delay, now)
                    },
                }
            }),
    {
        self.endpoint(true).law_next_is_least(delay, now);
        self.endpoint(false).law_next_is_least(delay, now);
        let c = self.endpoint(true).next(delay, now);
        let s = self.endpoint(false).next(delay, now);
        if c.0.is_some() {
            assert(self.holds(true, c.1, c.0.unwrap()));
        }
        if s.0.is_some() {
            assert(self.holds(false, s.1, s.0.unwrap()));
        }
    }

    /// A queue in which no event waits.
    pub fn new() -> (r: SimQueue)
        ensures
            r.wf(),
            r.total() == 0,
            forall|c: bool, q: Queue| #[trigger]
                r.endpoint(c).heap(q)@ == Multiset::<SimEvent>::empty(),
    {
        let r = SimQueue { client: EventQueue::new(), server: EventQueue::new() };
        r
    }

    /// How many events wait.
    pub fn len(&self) -> (r: usize)
        requires
            self.wf(),
        ensures
            r == self.total(),
    {
        self.client.len() + self.server.len()
    }

    /// Whether no event waits.
    pub fn is_empty(&self) -> (r: bool)
        requires
            self.wf(),
        ensures
            r == (self.total() == 0),
    {
        self.len() == 0
    }

    /// Adds an event that neither bypasses blocking nor may be replaced,
    /// with no delay known from the base trace.
    pub fn push(
        &mut self,
        event: TriggerEvent,
        is_client: bool,
        contains_padding: bool,
        time: Instant,
        delay: Duration,
    )
        requires
            old(self).wf(),
            old(self).total() < usize::MAX,
        ensures
            final(self).wf(),
            final(self).total() == old(self).total() + 1,
            ({
                let item = SimEvent {
                    event,
                    time,
                    integration_delay: delay,
                    client: is_client,
                    contains_padding,
                    bypass: false,
                    replace: false,
                    base_delay: None,
                };
                &&& final(self).endpoint(is_client).heap(route(item))@ == old(self).endpoint(
                    is_client,
                ).heap(route(item))@.insert(item)
                &&& forall|c: bool, q: Queue|
                    (c != is_client || q != route(item)) ==> #[trigger] final(self).endpoint(c).heap(
                        q,
                    ) == old(self).endpoint(c).heap(q)
            }),
    {
        self.push_sim(
            SimEvent {
                event,
                time,
                integration_delay: delay,
                client: is_client,
                contains_padding,
                bypass: false,
                replace: false,
                base_delay: None,
            },
        );
    }

    /// Adds an event to the heap that it belongs to, at the endpoint that
    /// it belongs to.
    pub fn push_sim(&mut self, item: SimEvent)
        requires
            old(self).wf(),
            old(self).total() < usize::MAX,
        ensures
            final(self).wf(),
            final(self).total() == old(self).total() + 1,
            final(self).endpoint(item.client).heap(route(item))@ == old(self).endpoint(
                item.client,
            ).heap(route(item))@.insert(item),
            forall|c: bool, q: Queue|
                (c != item.client || q != route(item)) ==> #[trigger] final(self).endpoint(c).heap(q)
                    == old(self).endpoint(c).heap(q),
    {
        if item.client {
            self.client.push(item);
        } else {
            self.server.push(item);
        }
        proof {
            assert forall|c: bool, q: Queue, e: SimEvent| #[trigger] self.holds(c, q, e) implies e.client
                == c by {
                if c == item.client && q == route(item) {
                    if e != item {
                        assert(old(self).holds(c, q, e));
                    }
                } else {
                    assert(old(self).holds(c, q, e));
                }
            }
        }
    }

    /// The next event of the simulation, its heap, and how long it is from
    /// `current_time` until the event. The times of the base trace count
    /// with `network_delay_sum` added. A span that is too long to be
    /// counted is given as the longest span there is.
    pub fn peek(&self, network_delay_sum: Duration, current_time: Instant) -> (r: (
        Option<&SimEvent>,
        Queue,
        Duration,
    ))
        requires
            self.wf(),
        ensures
            (event_of(r.0), r.1, r.2) == self.next(network_delay_sum, current_time),
    {
        let zero = Duration { micros: 0 };
        if self.len() == 0 {
            return (None, Queue::Blocking, zero);
        }
        let (c, cq, cd) = self.client.peek(network_delay_sum, current_time);
        let (s, sq, sd) = self.server.peek(network_delay_sum, current_time);
        match (c, s) {
            (None, Some(_)) => (s, sq, sd),
            (Some(_), None) => (c, cq, cd),
            (None, None) => (None, Queue::Blocking, zero),
            (Some(ce), Some(se)) => {
                if cd.micros < sd.micros || (cd.micros == sd.micros && crate::sim_event::event_to_usize(
                    &ce.event,
                ) < crate::sim_event::event_to_usize(&se.event)) {
                    (c, cq, cd)
                } else {
                    (s, sq, sd)
                }
            },
        }
    }

    /// Takes the event at the top of heap `q` of an endpoint, if there is
    /// one. An event of the base trace leaves with `network_delay_sum`
    /// added to its time, or with the latest time there is if the sum
    /// cannot be counted.
    pub fn pop(&mut self, q: Queue, is_client: bool, network_delay_sum: Duration) -> (r: Option<
        SimEvent,
    >)
        requires
            old(self).wf(),
        ensures
            final(self).wf(),
            forall|c: bool, q2: Queue|
                (c != is_client || q2 != q) ==> #[trigger] final(self).endpoint(c).heap(q2) == old(
                    self,
                ).endpoint(c).heap(q2),
            match old(self).endpoint(is_client).top(q) {
                None => r.is_none() && final(self).endpoint(is_client).heap(q)@ == old(
                    self,
                ).endpoint(is_client).heap(q)@ && final(self).total() == old(self).total(),
                Some(e) => {
                    &&& r == Some(
                        leaving(e, q, network_delay_sum),
                    )
                    &&& final(self).endpoint(is_client).heap(q)@ == old(self).endpoint(
                        is_client,
                    ).heap(q)@.remove(e)
                    &&& final(self).total() == old(self).total() - 1
                },
            },
    {
        let r = if is_client {
            self.client.pop(q, network_delay_sum)
        } else {
            self.server.pop(q, network_delay_sum)
        };
        proof {
            self.lemma_still_sorted(*old(self));
        }
        r
    }

    /// A queue whose heaps hold no more than those of a queue in which
    /// each endpoint holds its own events holds them so too.
    proof fn lemma_still_sorted(&self, before: SimQueue)
        requires
            forall|c: bool, q: Queue, e: SimEvent| #[trigger]
                before.holds(c, q, e) ==> e.client == c,
            forall|c: bool, q: Queue, e: SimEvent| #[trigger]
                self.holds(c, q, e) ==> before.holds(c, q, e),
        ensures
            forall|c: bool, q: Queue, e: SimEvent| #[trigger] self.holds(c, q, e) ==> e.client == c,
    {
    }

    /// The next event of an endpoint that the current blocking holds back,
    /// and its heap.
    pub fn peek_blocking(&self, bypassable: bool, is_client: bool) -> (r: (Option<&SimEvent>, Queue))
        requires
            self.wf(),
        ensures
            (event_of(r.0), r.1) == self.endpoint(is_client).next_blocking(bypassable),
    {
        if is_client {
            peek_blocking(&self.client, bypassable)
        } else {
            peek_blocking(&self.server, bypassable)
        }
    }

    /// Takes an event that the current blocking holds back: the top of the
    /// blocking heap if the blocking can be bypassed, else the top of heap
    /// `q`, as [`SimQueue::pop`] does.
    pub fn pop_blocking(
        &mut self,
        q: Queue,
        bypassable: bool,
        is_client: bool,
        network_delay_sum: Duration,
    ) -> (r: Option<SimEvent>)
        requires
            old(self).wf(),
        ensures
            final(self).wf(),
            ({
                let taken = if bypassable {
                    Queue::Blocking
                } else {
                    q
                };
                &&& forall|c: bool, q2: Queue|
                    (c != is_client || q2 != taken) ==> #[trigger] final(self).endpoint(c).heap(q2)
                        == old(self).endpoint(c).heap(q2)
                &&& match old(self).endpoint(is_client).top(taken) {
                    None => r.is_none() && final(self).endpoint(is_client).heap(taken)@ == old(
                        self,
                    ).endpoint(is_client).heap(taken)@ && final(self).total() == old(self).total(),
                    Some(e) => {
                        &&& r == Some(
                            leaving(e, taken, network_delay_sum),
                        )
                        &&& final(self).endpoint(is_client).heap(taken)@ == old(self).endpoint(
                            is_client,
                        ).heap(taken)@.remove(e)
                        &&& final(self).total() == old(self).total() - 1
                    },
                }
            }),
    {
        if bypassable {
            let r = if is_client {
                self.client.pop_held()
            } else {
                self.server.pop_held()
            };
            proof {
                self.lemma_still_sorted(*old(self));
            }
            r
        } else {
            self.pop(q, is_client, network_delay_sum)
        }
    }

    /// The next event of an endpoint that the current blocking lets pass,
    /// and its heap, without regard to network delay.
    pub fn peek_non_blocking(&self, bypassable: bool, is_client: bool) -> (r: (
        Option<&SimEvent>,
        Queue,
    ))
        requires
            self.wf(),
        ensures
            (event_of(r.0), r.1) == self.endpoint(is_client).next_non_blocking(bypassable),
    {
        if is_client {
            peek_non_blocking(&self.client, bypassable)
        } else {
            peek_non_blocking(&self.server, bypassable)
        }
    }

    /// The earliest time of the base trace, as the trace has it.
    pub fn get_first_time(&self) -> (r: Option<Instant>)
        requires
            self.wf(),
        ensures
            r == match (self.endpoint(true).top(Queue::Base), self.endpoint(false).top(Queue::Base)) {
                (Some(c), Some(s)) => Some(
                    if c.time.micros <= s.time.micros {
                        c.time
                    } else {
                        s.time
                    },
                ),
                (Some(c), None) => Some(c.time),
                (None, Some(s)) => Some(s.time),
                (None, None) => None,
            },
    {
        let c = self.client.get_first_base_time();
        let s = self.server.get_first_base_time();
        match (c, s) {
            (Some(ct), Some(st)) => Some(
                if ct.micros <= st.micros {
                    ct
                } else {
                    st
                },
            ),
            (Some(ct), None) => Some(ct),
            (None, Some(st)) => Some(st),
            (None, None) => None,
        }
    }
}

impl Default for SimQueue {
    fn default() -> (r: SimQueue)
        ensures
            r.wf(),
            r.total() == 0,
    {
        SimQueue::new()
    }
}

} // verus!
