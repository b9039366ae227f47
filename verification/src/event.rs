//! The kinds of events that drive a machine.

use vstd::prelude::*;
use crate::constants::EVENT_NUM;

verus! {

/// What a transition of a state is keyed by.
#[derive(Clone, Copy, Debug, PartialEq, Eq, Structural, Hash)]
pub enum Event {
    /// Non-padding bytes were received.
    NormalRecv,
    /// Non-padding bytes were sent.
    NormalSent,
    /// Padding bytes were received.
    PaddingRecv,
    /// Padding bytes were sent.
    PaddingSent,
    /// A packet was received in the tunnel.
    TunnelRecv,
    /// A packet was sent in the tunnel.
    TunnelSent,
    /// Blocking of outgoing traffic began.
    BlockingBegin,
    /// Blocking of outgoing traffic ended.
    BlockingEnd,
    /// The limit of the current state was used up.
    LimitReached,
    /// A counter of the machine reached zero.
    CounterZero,
    /// The timer of the machine was started.
    TimerBegin,
    /// The timer of the machine ran out.
    TimerEnd,
    /// The MTU of the protected connection changed.
    UpdateMTU,
}

impl Event {
    /// The place of the event in the declared order.
    pub open spec fn index(self) -> int {
        match self {
            Event::NormalRecv => 0,
            Event::NormalSent => 1,
            Event::PaddingRecv => 2,
            Event::PaddingSent => 3,
            Event::TunnelRecv => 4,
            Event::TunnelSent => 5,
            Event::BlockingBegin => 6,
            Event::BlockingEnd => 7,
            Event::LimitReached => 8,
            Event::CounterZero => 9,
            Event::TimerBegin => 10,
            Event::TimerEnd => 11,
            Event::UpdateMTU => 12,
        }
    }

    /// The place of the event in the declared order.
    pub fn to_usize(&self) -> (r: usize)
        ensures
            r == self.index(),
            r < EVENT_NUM,
    {
        match self {
            Event::NormalRecv => 0,
            Event::NormalSent => 1,
            Event::PaddingRecv => 2,
            Event::PaddingSent => 3,
            Event::TunnelRecv => 4,
            Event::TunnelSent => 5,
            Event::BlockingBegin => 6,
            Event::BlockingEnd => 7,
            Event::LimitReached => 8,
            Event::CounterZero => 9,
            Event::TimerBegin => 10,
            Event::TimerEnd => 11,
            Event::UpdateMTU => 12,
        }
    }

    /// The event at a place of the declared order, if there is one.
    pub fn from_usize(i: usize) -> (r: Option<Event>)
        ensures
            i < EVENT_NUM ==> r.is_some() && r.unwrap().index() == i,
            i >= EVENT_NUM ==> r.is_none(),
    {
        match i {
            0 => Some(Event::NormalRecv),
            1 => Some(Event::NormalSent),
            2 => Some(Event::PaddingRecv),
            3 => Some(Event::PaddingSent),
            4 => Some(Event::TunnelRecv),
            5 => Some(Event::TunnelSent),
            6 => Some(Event::BlockingBegin),
            7 => Some(Event::BlockingEnd),
            8 => Some(Event::LimitReached),
            9 => Some(Event::CounterZero),
            10 => Some(Event::TimerBegin),
            11 => Some(Event::TimerEnd),
            12 => Some(Event::UpdateMTU),
            _ => None,
        }
    }
}

} // verus!
