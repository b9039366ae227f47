//! A time-stamped event of the simulator, and the order in which events
//! leave the queue.

use vstd::prelude::*;
use crate::framework::TriggerEvent;
use crate::time::{Duration, Instant};

verus! {

/// An event in the simulator's queue.
#[derive(Clone, Copy, Debug, PartialEq, Eq, Hash)]
pub struct SimEvent {
    /// What happened.
    pub event: TriggerEvent,
    /// When it happens. For an event of the base trace this is the time in
    /// the trace, before any network delay that the simulation added.
    pub time: Instant,
    /// How long the integration takes to act on the event.
    pub integration_delay: Duration,
    /// Whether the event belongs to the client (else to the server).
    pub client: bool,
    /// Whether the packet of the event holds padding.
    pub contains_padding: bool,
    /// Whether the packet may pass through blocking that can be bypassed.
    pub bypass: bool,
    /// Whether the packet may be replaced by a queued packet.
    pub replace: bool,
    /// The delay that the packet had in the base trace, if known.
    pub base_delay: Option<Duration>,
}

/// The rank of each kind of event: of two events at the same time the one
/// with the lower rank comes first. Sent before received, tunnel before
/// normal before padding, begin before end.
pub open spec fn event_rank(e: TriggerEvent) -> int {
    match e {
        TriggerEvent::TunnelSent => 0,
        TriggerEvent::NormalSent { .. } => 1,
        TriggerEvent::PaddingSent { .. } => 2,
        TriggerEvent::TunnelRecv => 3,
        TriggerEvent::NormalRecv { .. } => 4,
        TriggerEvent::PaddingRecv { .. } => 5,
        TriggerEvent::BlockingBegin { .. } => 6,
        TriggerEvent::BlockingEnd => 7,
        TriggerEvent::TimerBegin { .. } => 8,
        TriggerEvent::TimerEnd { .. } => 9,
        TriggerEvent::LimitReached { .. } => 10,
        TriggerEvent::CounterZero { .. } => 11,
        TriggerEvent::UpdateMTU { .. } => 12,
    }
}

/// The rank of an event, see [`event_rank`].
pub fn event_to_usize(e: &TriggerEvent) -> (r: usize)
    ensures
        r == event_rank(*e),
{
    match e {
        TriggerEvent::TunnelSent => 0,
        TriggerEvent::NormalSent { .. } => 1,
        TriggerEvent::PaddingSent { .. } => 2,
        TriggerEvent::TunnelRecv => 3,
        TriggerEvent::NormalRecv { .. } => 4,
        TriggerEvent::PaddingRecv { .. } => 5,
        TriggerEvent::BlockingBegin { .. } => 6,
        TriggerEvent::BlockingEnd => 7,
        TriggerEvent::TimerBegin { .. } => 8,
        TriggerEvent::TimerEnd { .. } => 9,
        TriggerEvent::LimitReached { .. } => 10,
        TriggerEvent::CounterZero { .. } => 11,
        TriggerEvent::UpdateMTU { .. } => 12,
    }
}

impl SimEvent {
    /// The rank of the event's kind.
    pub open spec fn rank(self) -> int {
        event_rank(self.event)
    }

    /// Whether `self`, moved `delay` into the future, comes strictly before
    /// `other`: at an earlier time, or at the same time with a lower rank.
    pub open spec fn precedes(self, other: SimEvent, delay: Duration) -> bool {
        self.time.micros + delay.micros < other.time.micros || (self.time.micros + delay.micros
            == other.time.micros && self.rank() < other.rank())
    }

    /// Whether `self` comes strictly before `other` in the order of the
    /// queue.
    pub open spec fn earlier(self, other: SimEvent) -> bool {
        self.precedes(other, Duration { micros: 0 })
    }

    /// Whether `self`, moved `delay` into the future, comes strictly before
    /// `other`.
    pub fn is_before(&self, other: &SimEvent, delay: Duration) -> (r: bool)
        ensures
            r == self.precedes(*other, delay),
    {
        let moved: u128 = self.time.micros as u128 + delay.micros as u128;
        let there: u128 = other.time.micros as u128;
        if moved < there {
            true
        } else if moved == there {
            event_to_usize(&self.event) < event_to_usize(&other.event)
        } else {
            false
        }
    }

    /// Whether `self` comes strictly before `other` in the order of the
    /// queue.
    pub fn is_earlier(&self, other: &SimEvent) -> (r: bool)
        ensures
            r == self.earlier(*other),
    {
        self.is_before(other, Duration { micros: 0 })
    }
}

} // verus!
