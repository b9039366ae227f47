//! What a framework holds, as a mathematical value, and what each event
//! does to it. The functions here say what the framework computes once
//! its draws are known; the framework itself makes the draws one by one.

use vstd::prelude::*;
use crate::action::{Action, Timer, TriggerAction};
use crate::constants::{MAX_SMALL_PACKET_SIZE, STATE_CANCEL, STATE_END, STATE_LIMIT_MAX};
use crate::error::Error;
use crate::event::Event;
use crate::fixed::{Fixed, UNIT};
use crate::framework::{MachineId, TriggerEvent};
use crate::machine::Machine;
use crate::state::State;
use crate::time::{Duration, Instant};

verus! {

/// What the framework keeps for each machine while it runs.
#[derive(Clone, Copy, Debug, PartialEq, Eq, Hash)]
pub struct MachineRuntime {
    /// The place of the state that the machine is in, or `STATE_END`.
    pub current_state: usize,
    /// How often the action of the current state may still be taken.
    pub state_limit: u64,
    /// The padding bytes that the machine has sent.
    pub padding_sent: u64,
    /// The non-padding bytes sent while the machine ran.
    pub nonpadding_sent: u64,
    /// The time that sending was blocked while the machine ran.
    pub blocking_duration: Duration,
    /// When the machine was started.
    pub machine_start: Instant,
}

/// Whether a transition changed the state of the machine.
#[derive(Clone, Copy, Debug, PartialEq, Eq, Structural, Hash)]
pub enum StateChange {
    /// The machine is in another state than before.
    Changed,
    /// The machine is in the state it was in.
    Unchanged,
}

/// The numbers drawn for one transition: for the choice of the next state
/// a number of millionths below one; for the limit, the timeout and the
/// duration a draw from the distribution in question. A draw that the
/// transition does not need is not looked at.
pub struct Draws {
    pub pick: u32,
    pub limit: Fixed,
    pub timeout: Fixed,
    pub duration: Fixed,
}

/// The numbers drawn for one machine on one event: for the transition on
/// the event and for the transition on `LimitReached` that may follow it.
pub type EventDraws = (Draws, Draws);

/// The value of a framework: its machines and limits, which stay as they
/// are, and its accounting.
pub struct Ledger {
    /// The machines.
    pub machines: Seq<Machine>,
    /// For each machine the action that is pending since the last batch of
    /// events, if any.
    pub actions: Seq<Option<TriggerAction>>,
    /// For each machine what the framework keeps for it.
    pub runtime: Seq<MachineRuntime>,
    /// The time of the last batch of events.
    pub current_time: Instant,
    /// The largest fraction of padding among all bytes, over all machines.
    pub global_max_padding_frac: Fixed,
    /// The largest fraction of time spent blocking, over all machines.
    pub global_max_blocking_frac: Fixed,
    /// All non-padding bytes sent.
    pub global_nonpadding_sent_bytes: u64,
    /// All padding bytes sent.
    pub global_padding_sent_bytes: u64,
    /// The time that sending was blocked, without blocking that goes on.
    pub global_blocking_duration: Duration,
    /// When the blocking that goes on began.
    pub global_blocking_started: Instant,
    /// Whether blocking goes on.
    pub global_blocking_active: bool,
    /// When the framework was started.
    pub global_framework_start: Instant,
    /// The MTU of the connection, as last reported.
    pub mtu: u16,
}

/// The sum of two byte counts, held to the largest there is.
pub open spec fn add_bytes(have: u64, more: u16) -> u64 {
    if have + more > u64::MAX {
        u64::MAX
    } else {
        (have + more) as u64
    }
}

/// Whether two values kept for a machine count the same bytes sent and
/// the same time blocked since the same start.
pub open spec fn same_counts(a: MachineRuntime, b: MachineRuntime) -> bool {
    &&& a.padding_sent == b.padding_sent
    &&& a.nonpadding_sent == b.nonpadding_sent
    &&& a.blocking_duration == b.blocking_duration
    &&& a.machine_start == b.machine_start
}

/// What is kept for a machine once an event that reaches it is counted:
/// non-padding bytes and padding bytes that were sent are added to those
/// sent, and the time blocked to the time blocked when blocking ends.
pub open spec fn counted(rt: MachineRuntime, e: TriggerEvent, blocked: Duration) -> MachineRuntime {
    match e {
        TriggerEvent::NormalSent { bytes_sent } => MachineRuntime {
            nonpadding_sent: add_bytes(rt.nonpadding_sent, bytes_sent),
            ..rt
        },
        TriggerEvent::PaddingSent { bytes_sent, .. } => MachineRuntime {
            padding_sent: add_bytes(rt.padding_sent, bytes_sent),
            ..rt
        },
        TriggerEvent::BlockingEnd => MachineRuntime {
            blocking_duration: rt.blocking_duration.plus(blocked),
            ..rt
        },
        _ => rt,
    }
}

/// The limit that a state gets when a machine enters it with the draw
/// `raw`: that of its action, and the largest there is without an action.
pub open spec fn limit_for(state: State, raw: Fixed) -> u64 {
    match state.action {
        Some(a) => a.limit_of(raw),
        None => STATE_LIMIT_MAX,
    }
}

/// Whether an event reaches the machine at place `mi`: an event that
/// names a machine and is not about blocking reaches that machine only.
pub open spec fn reaches(e: TriggerEvent, mi: int) -> bool {
    match e {
        TriggerEvent::PaddingSent { machine, .. } => mi == machine.0,
        TriggerEvent::LimitReached { machine } => mi == machine.0,
        TriggerEvent::CounterZero { machine } => mi == machine.0,
        TriggerEvent::TimerBegin { machine } => mi == machine.0,
        TriggerEvent::TimerEnd { machine } => mi == machine.0,
        _ => true,
    }
}

/// The bytes that an event carries, as far as they decide whether the
/// packet is a small one.
pub open spec fn bytes_of(e: TriggerEvent) -> u64 {
    match e {
        TriggerEvent::NormalRecv { bytes_recv } => bytes_recv as u64,
        TriggerEvent::PaddingRecv { bytes_recv } => bytes_recv as u64,
        TriggerEvent::NormalSent { bytes_sent } => bytes_sent as u64,
        TriggerEvent::PaddingSent { bytes_sent, .. } => bytes_sent as u64,
        TriggerEvent::UpdateMTU { new_mtu } => new_mtu as u64,
        _ => 0,
    }
}

impl Ledger {
    /// Whether `mi` is the place of a machine.
    pub open spec fn has(self, mi: int) -> bool {
        0 <= mi < self.machines.len()
    }

    /// Whether every pending action is for the machine at whose place it
    /// stands.
    pub open spec fn named(self) -> bool {
        forall|mi: int|
            0 <= mi < self.actions.len() && (#[trigger] self.actions[mi]).is_some()
                ==> self.actions[mi].unwrap().machine_of().0 == mi
    }

    /// The lists are as long as there are machines, every machine is
    /// valid, the limits of the framework are fractions, every machine
    /// is in one of its states or at its end, and every pending action is
    /// for the machine at whose place it stands.
    pub open spec fn wf(self) -> bool {
        &&& self.named()
        &&& self.actions.len() == self.machines.len()
        &&& self.runtime.len() == self.machines.len()
        &&& self.machines.len() <= usize::MAX
        &&& self.global_max_padding_frac.is_fraction()
        &&& self.global_max_blocking_frac.is_fraction()
        &&& forall|mi: int| 0 <= mi < self.machines.len() ==> (#[trigger] self.machines[mi]).valid()
        &&& forall|mi: int|
            0 <= mi < self.machines.len() ==> {
                ||| (#[trigger] self.runtime[mi]).current_state == STATE_END
                ||| self.runtime[mi].current_state < self.machines[mi].states@.len()
            }
    }

    /// Whether the machine at `mi` is in one of its states, not at its
    /// end.
    pub open spec fn running(self, mi: int) -> bool {
        &&& self.has(mi)
        &&& self.runtime[mi].current_state != STATE_END
        &&& self.runtime[mi].current_state < self.machines[mi].states@.len()
    }

    /// The state that the machine at `mi` is in.
    pub open spec fn current(self, mi: int) -> State {
        self.machines[mi].states@[self.runtime[mi].current_state as int]
    }

    /// The same, with another pending action for the machine at `mi`.
    pub open spec fn with_action(self, mi: int, action: Option<TriggerAction>) -> Ledger {
        Ledger { actions: self.actions.update(mi, action), ..self }
    }

    /// The same, with other runtime values for the machine at `mi`.
    pub open spec fn with_runtime(self, mi: int, runtime: MachineRuntime) -> Ledger {
        Ledger { runtime: self.runtime.update(mi, runtime), ..self }
    }

    /// How long the blocking that goes on has lasted; nothing if none goes
    /// on.
    pub open spec fn ongoing_blocking(self) -> Duration {
        if self.global_blocking_active {
            self.current_time.since(self.global_blocking_started)
        } else {
            Duration { micros: 0 }
        }
    }

    /// Whether `part` of `whole` is the fraction `frac` or more. Of
    /// nothing every part is, nothing too.
    pub open spec fn at_least(part: u64, whole: int, frac: Fixed) -> bool {
        part * UNIT >= frac.millionths * whole
    }

    /// Whether the time `part` is the fraction `frac` or more of the time
    /// `whole`. Where no time has passed, time that was blocked is, and
    /// no time blocked is not.
    pub open spec fn blocked_at_least(part: u64, whole: int, frac: Fixed) -> bool {
        if whole == 0 {
            part > 0
        } else {
            Self::at_least(part, whole, frac)
        }
    }

    /// Whether the machine at `mi` may send padding. While the machine has
    /// allowed padding bytes left, only its state limit counts. After
    /// that a machine with a fraction of its own is held to that one: its
    /// padding bytes must be less than that fraction of all bytes that it
    /// saw sent. A machine without a fraction is held to the fraction of
    /// the framework, if that has one, by the bytes that the framework
    /// has counted. In every case the state limit counts too.
    pub open spec fn below_limit_padding(self, mi: int) -> bool {
        let rt = self.runtime[mi];
        let m = self.machines[mi];
        if rt.padding_sent < m.allowed_padding_bytes {
            rt.state_limit > 0
        } else if m.max_padding_frac.millionths > 0 {
            rt.state_limit > 0 && !Self::at_least(
                rt.padding_sent,
                rt.padding_sent + rt.nonpadding_sent,
                m.max_padding_frac,
            )
        } else if self.global_max_padding_frac.millionths > 0 {
            rt.state_limit > 0 && !Self::at_least(
                self.global_padding_sent_bytes,
                self.global_padding_sent_bytes + self.global_nonpadding_sent_bytes,
                self.global_max_padding_frac,
            )
        } else {
            rt.state_limit > 0
        }
    }

    /// Whether the action of the current state of the machine at `mi`
    /// replaces blocking that is in place.
    pub open spec fn replaces_blocking(self, mi: int) -> bool {
        match self.current(mi).action {
            Some(Action::BlockOutgoing { replace, .. }) => replace,
            _ => false,
        }
    }

    /// Whether the machine at `mi` may block. Blocking that replaces, at a
    /// time when none goes on, is held to the state limit only. Otherwise
    /// the time blocked counts, with the blocking that goes on: while it
    /// is less than the allowed time of the machine, only the state limit
    /// counts. After that a machine with a fraction of its own is held to
    /// that one: its time blocked must be less than that fraction of the
    /// time since the machine started. A machine without a fraction is
    /// held to the fraction of the framework, if that has one, by the
    /// time that the framework has counted since its start. At the very
    /// start, when no time has passed and none was blocked, a fraction
    /// does not stand in the way. In every case the state limit counts
    /// too.
    pub open spec fn below_limit_blocking(self, mi: int) -> bool {
        let rt = self.runtime[mi];
        let m = self.machines[mi];
        let m_block = rt.blocking_duration.plus(self.ongoing_blocking());
        let g_block = self.global_blocking_duration.plus(self.ongoing_blocking());
        if self.replaces_blocking(mi) && !self.global_blocking_active {
            rt.state_limit > 0
        } else if m_block.micros < m.allowed_blocked_microsec {
            rt.state_limit > 0
        } else if m.max_blocking_frac.millionths > 0 {
            rt.state_limit > 0 && !Self::blocked_at_least(
                m_block.micros,
                self.current_time.since(rt.machine_start).micros as int,
                m.max_blocking_frac,
            )
        } else if self.global_max_blocking_frac.millionths > 0 {
            rt.state_limit > 0 && !Self::blocked_at_least(
                g_block.micros,
                self.current_time.since(self.global_framework_start).micros as int,
                self.global_max_blocking_frac,
            )
        } else {
            rt.state_limit > 0
        }
    }

    /// Whether the action of the current state of the machine at `mi` may
    /// be taken: never without an action or at the end; padding and
    /// blocking by their limits; other actions by the state limit.
    pub open spec fn below_action_limits(self, mi: int) -> bool {
        if !self.running(mi) {
            false
        } else {
            match self.current(mi).action {
                None => false,
                Some(Action::BlockOutgoing { .. }) => self.below_limit_blocking(mi),
                Some(Action::SendPadding { .. }) => self.below_limit_padding(mi),
                Some(_) => self.runtime[mi].state_limit > 0,
            }
        }
    }

    /// What the embedder is asked to do when the action of the current
    /// state of the machine at `mi` is taken with the draws `d`. The flags
    /// are those of the action.
    pub open spec fn scheduled(self, mi: int, d: Draws) -> Option<TriggerAction> {
        let machine = MachineId(mi as usize);
        match self.current(mi).action {
            None => None,
            Some(a) => Some(
                match a {
                    Action::Cancel { timer } => TriggerAction::Cancel { machine, timer },
                    Action::SendPadding { bypass, replace, .. } => TriggerAction::SendPadding {
                        timeout: Duration { micros: a.timeout_of(d.timeout).unwrap() },
                        bypass,
                        replace,
                        machine,
                    },
                    Action::BlockOutgoing { bypass, replace, .. } => TriggerAction::BlockOutgoing {
                        timeout: Duration { micros: a.timeout_of(d.timeout).unwrap() },
                        duration: Duration { micros: a.duration_of(d.duration).unwrap() },
                        bypass,
                        replace,
                        machine,
                    },
                    Action::UpdateTimer { replace, .. } => TriggerAction::UpdateTimer {
                        duration: Duration { micros: a.duration_of(d.duration).unwrap() },
                        replace,
                        machine,
                    },
                },
            ),
        }
    }

    /// The same, with the action of the current state of the machine at
    /// `mi` pending if it may be taken.
    pub open spec fn act(self, mi: int, d: Draws) -> Ledger {
        if self.below_action_limits(mi) {
            self.with_action(mi, self.scheduled(mi, d))
        } else {
            self
        }
    }

    /// What an event of kind `event` that carries `n` bytes does to the
    /// machine at `mi`, with the draws `d`.
    ///
    /// Nothing at the end, and nothing if the packet is small and the
    /// machine does not count small packets. Else the state picks where
    /// to go. Nowhere: nothing. To `STATE_CANCEL`: an action that
    /// cancels the action timer is pending; the state is unchanged. To
    /// `STATE_END`: the machine is at its end; what was pending stays.
    /// To the state it is in: its action is pending if it may be taken;
    /// the state is unchanged. To another state: the machine is in that
    /// state with a new limit, and the action of that state is pending if
    /// it may be taken.
    pub open spec fn transition(self, mi: int, event: Event, n: u64, d: Draws) -> (
        Ledger,
        StateChange,
    ) {
        if !self.running(mi) {
            (self, StateChange::Unchanged)
        } else if !self.machines[mi].include_small_packets && 0 < n <= MAX_SMALL_PACKET_SIZE {
            (self, StateChange::Unchanged)
        } else {
            match self.current(mi).picked(event, d.pick) {
                None => (self, StateChange::Unchanged),
                Some(next) => if next == STATE_CANCEL {
                    (
                        self.with_action(
                            mi,
                            Some(
                                TriggerAction::Cancel {
                                    machine: MachineId(mi as usize),
                                    timer: Timer::Action,
                                },
                            ),
                        ),
                        StateChange::Unchanged,
                    )
                } else if next == STATE_END {
                    (
                        self.with_runtime(
                            mi,
                            MachineRuntime { current_state: STATE_END, ..self.runtime[mi] },
                        ),
                        StateChange::Changed,
                    )
                } else if next >= self.machines[mi].states@.len() {
                    (self, StateChange::Unchanged)
                } else if next == self.runtime[mi].current_state {
                    (self.act(mi, d), StateChange::Unchanged)
                } else {
                    (
                        self.with_runtime(
                            mi,
                            MachineRuntime {
                                current_state: next,
                                state_limit: limit_for(
                                    self.machines[mi].states@[next as int],
                                    d.limit,
                                ),
                                ..self.runtime[mi]
                            },
                        ).act(mi, d),
                        StateChange::Changed,
                    )
                },
            }
        }
    }

    /// What using up one of the state limit does to the machine at `mi`:
    /// the limit is one less, if it was not zero. If it is zero then, and
    /// the action of the state declares a limit, nothing is pending for
    /// the machine any more and the machine gets the event `LimitReached`,
    /// with the draws `d`. Nothing happens at the end.
    pub open spec fn decrement_limit(self, mi: int, d: Draws) -> Ledger {
        if !self.running(mi) {
            self
        } else {
            let rt = self.runtime[mi];
            let left = if rt.state_limit > 0 {
                (rt.state_limit - 1) as u64
            } else {
                0
            };
            let less = self.with_runtime(mi, MachineRuntime { state_limit: left, ..rt });
            if left == 0 && self.current(mi).action.is_some() && self.current(
                mi,
            ).action.unwrap().has_limit_dist() {
                less.with_action(mi, None).transition(mi, Event::LimitReached, 0, d).0
            } else {
                less
            }
        }
    }

    /// How long sending was blocked when the event ends blocking.
    pub open spec fn blocked_until(self, e: TriggerEvent) -> Duration {
        if e is BlockingEnd {
            self.ongoing_blocking()
        } else {
            Duration { micros: 0 }
        }
    }

    /// What an event does to the accounting of the framework as a whole:
    /// bytes sent are counted; the begin of blocking is noted if none goes
    /// on; at its end the time blocked is counted; a new MTU is kept.
    pub open spec fn account(self, e: TriggerEvent) -> Ledger {
        match e {
            TriggerEvent::NormalSent { bytes_sent } => Ledger {
                global_nonpadding_sent_bytes: add_bytes(
                    self.global_nonpadding_sent_bytes,
                    bytes_sent,
                ),
                ..self
            },
            TriggerEvent::PaddingSent { bytes_sent, .. } => Ledger {
                global_padding_sent_bytes: add_bytes(self.global_padding_sent_bytes, bytes_sent),
                ..self
            },
            TriggerEvent::BlockingBegin { .. } => if self.global_blocking_active {
                self
            } else {
                Ledger {
                    global_blocking_active: true,
                    global_blocking_started: self.current_time,
                    ..self
                }
            },
            TriggerEvent::BlockingEnd => if self.global_blocking_active {
                Ledger {
                    global_blocking_duration: self.global_blocking_duration.plus(
                        self.ongoing_blocking(),
                    ),
                    global_blocking_active: false,
                    ..self
                }
            } else {
                self
            },
            TriggerEvent::UpdateMTU { new_mtu } => Ledger { mtu: new_mtu, ..self },
            _ => self,
        }
    }

    /// What an event does to the accounting of the machine at `mi`:
    /// non-padding bytes sent count for every machine, padding bytes for
    /// the machine that sent them, and the time blocked for every machine.
    pub open spec fn account_machine(self, mi: int, e: TriggerEvent, blocked: Duration) -> Ledger {
        let rt = self.runtime[mi];
        match e {
            TriggerEvent::NormalSent { bytes_sent } => self.with_runtime(
                mi,
                MachineRuntime { nonpadding_sent: add_bytes(rt.nonpadding_sent, bytes_sent), ..rt },
            ),
            TriggerEvent::PaddingSent { bytes_sent, .. } => self.with_runtime(
                mi,
                MachineRuntime { padding_sent: add_bytes(rt.padding_sent, bytes_sent), ..rt },
            ),
            TriggerEvent::BlockingEnd => self.with_runtime(
                mi,
                MachineRuntime { blocking_duration: rt.blocking_duration.plus(blocked), ..rt },
            ),
            _ => self,
        }
    }

    /// Whether an event that left the machine at `mi` in its state uses up
    /// one of the state limit: padding that the machine sent; blocking
    /// that the machine began; non-padding sent, if the state counts it.
    pub open spec fn uses_limit(self, mi: int, e: TriggerEvent) -> bool {
        match e {
            TriggerEvent::NormalSent { .. } => self.running(mi) && self.current(
                mi,
            ).limit_includes_nonpadding,
            TriggerEvent::PaddingSent { .. } => true,
            TriggerEvent::BlockingBegin { machine } => mi == machine.0,
            _ => false,
        }
    }

    /// What an event does to the machine at `mi`, after the accounting of
    /// the framework: if the event reaches the machine, the accounting of
    /// the machine, then the transition on the event, then the use of the
    /// state limit if the state is unchanged and the event uses it.
    pub open spec fn step(self, mi: int, e: TriggerEvent, blocked: Duration, d: EventDraws) -> Ledger {
        if !self.has(mi) || !reaches(e, mi) {
            self
        } else {
            let (moved, change) = self.account_machine(mi, e, blocked).transition(
                mi,
                e.kind(),
                bytes_of(e),
                d.0,
            );
            if change == StateChange::Unchanged && moved.uses_limit(mi, e) {
                moved.decrement_limit(mi, d.1)
            } else {
                moved
            }
        }
    }

    /// What an event does to the first `upto` machines, one after the
    /// other, each with its draws.
    pub open spec fn run(self, e: TriggerEvent, blocked: Duration, ds: Seq<EventDraws>, upto: int) -> Ledger
        decreases upto,
    {
        if upto <= 0 {
            self
        } else {
            self.run(e, blocked, ds, upto - 1).step(upto - 1, e, blocked, ds[upto - 1])
        }
    }

    /// What an event does: the accounting of the framework, then the
    /// machines in their order.
    pub open spec fn process_event(self, e: TriggerEvent, ds: Seq<EventDraws>) -> Ledger {
        self.account(e).run(e, self.blocked_until(e), ds, self.machines.len() as int)
    }

    /// What the first `upto` events of a batch do, in their order.
    pub open spec fn process_events(
        self,
        events: Seq<TriggerEvent>,
        dss: Seq<Seq<EventDraws>>,
        upto: int,
    ) -> Ledger
        decreases upto,
    {
        if upto <= 0 {
            self
        } else {
            self.process_events(events, dss, upto - 1).process_event(events[upto - 1], dss[upto - 1])
        }
    }

    /// The same at the time `now`, with nothing pending for any machine.
    pub open spec fn cleared(self, now: Instant) -> Ledger {
        Ledger {
            actions: Seq::new(self.actions.len(), |i: int| None::<TriggerAction>),
            current_time: now,
            ..self
        }
    }

    /// What a batch of events at the time `now` does: nothing is pending
    /// at first, then the events happen in their order. A later event may
    /// put another action in the place of one that an earlier event left
    /// pending.
    pub open spec fn trigger_events(
        self,
        events: Seq<TriggerEvent>,
        now: Instant,
        dss: Seq<Seq<EventDraws>>,
    ) -> Ledger {
        self.cleared(now).process_events(events, dss, events.len() as int)
    }

    /// The pending actions of the first `upto` machines, in the order of
    /// the machines.
    pub open spec fn pending(self, upto: int) -> Seq<TriggerAction>
        decreases upto,
    {
        if upto <= 0 {
            Seq::empty()
        } else {
            match self.actions[upto - 1] {
                Some(a) => self.pending(upto - 1).push(a),
                None => self.pending(upto - 1),
            }
        }
    }

    /// The pending actions, in the order of the machines.
    pub open spec fn emitted(self) -> Seq<TriggerAction> {
        self.pending(self.actions.len() as int)
    }
}

} // verus!

verus! {

impl Ledger {
    /// Whether `after` and `change` are what a transition gives with the
    /// draws `d`, the pick being a number of millionths below one.
    pub open spec fn transitions_to(
        self,
        after: Ledger,
        change: StateChange,
        mi: int,
        event: Event,
        n: u64,
        d: Draws,
    ) -> bool {
        d.pick < UNIT && (after, change) == self.transition(mi, event, n, d)
    }

    /// Whether `after` is what the use of the state limit gives with the
    /// draws `d`.
    pub open spec fn decrements_to(self, after: Ledger, mi: int, d: Draws) -> bool {
        d.pick < UNIT && after == self.decrement_limit(mi, d)
    }

    /// Whether `after` is what an event does to the machine at `mi` with
    /// the draws `d`.
    pub open spec fn steps_to(
        self,
        after: Ledger,
        mi: int,
        e: TriggerEvent,
        blocked: Duration,
        d: EventDraws,
    ) -> bool {
        d.0.pick < UNIT && d.1.pick < UNIT && after == self.step(mi, e, blocked, d)
    }

    /// Whether every pick among the draws for an event is a number of
    /// millionths below one, and there are draws for every machine.
    pub open spec fn fair(self, ds: Seq<EventDraws>) -> bool {
        &&& ds.len() == self.machines.len()
        &&& forall|i: int| 0 <= i < ds.len() ==> (#[trigger] ds[i]).0.pick < UNIT && ds[i].1.pick < UNIT
    }

    /// Whether there are fair draws for each event of a batch.
    pub open spec fn all_fair(self, events: Seq<TriggerEvent>, dss: Seq<Seq<EventDraws>>) -> bool {
        &&& dss.len() == events.len()
        &&& forall|i: int| 0 <= i < dss.len() ==> self.fair(#[trigger] dss[i])
    }

    /// Whether `after` is what an event does with the draws `ds`.
    pub open spec fn processes_to(self, after: Ledger, e: TriggerEvent, ds: Seq<EventDraws>) -> bool {
        self.fair(ds) && after == self.process_event(e, ds)
    }

    /// Whether `after` is what a batch of events does with the draws
    /// `dss`.
    pub open spec fn triggers_to(
        self,
        after: Ledger,
        events: Seq<TriggerEvent>,
        now: Instant,
        dss: Seq<Seq<EventDraws>>,
    ) -> bool {
        self.all_fair(events, dss) && after == self.trigger_events(events, now, dss)
    }

    /// What an event does to the first machines depends on the draws for
    /// these machines only.
    pub proof fn lemma_run_reads_prefix(
        self,
        e: TriggerEvent,
        blocked: Duration,
        ds1: Seq<EventDraws>,
        ds2: Seq<EventDraws>,
        upto: int,
    )
        requires
            upto <= ds1.len(),
            upto <= ds2.len(),
            forall|i: int| 0 <= i < upto ==> ds1[i] == ds2[i],
        ensures
            self.run(e, blocked, ds1, upto) == self.run(e, blocked, ds2, upto),
        decreases upto,
    {
        if upto > 0 {
            self.lemma_run_reads_prefix(e, blocked, ds1, ds2, upto - 1);
        }
    }

    /// What the first events of a batch do depends on these events and
    /// their draws only.
    pub proof fn lemma_events_read_prefix(
        self,
        ev1: Seq<TriggerEvent>,
        ev2: Seq<TriggerEvent>,
        dss1: Seq<Seq<EventDraws>>,
        dss2: Seq<Seq<EventDraws>>,
        upto: int,
    )
        requires
            upto <= ev1.len(),
            upto <= ev2.len(),
            upto <= dss1.len(),
            upto <= dss2.len(),
            forall|i: int| 0 <= i < upto ==> ev1[i] == ev2[i] && dss1[i] == dss2[i],
        ensures
            self.process_events(ev1, dss1, upto) == self.process_events(ev2, dss2, upto),
        decreases upto,
    {
        if upto > 0 {
            self.lemma_events_read_prefix(ev1, ev2, dss1, dss2, upto - 1);
        }
    }
}

} // verus!

verus! {

impl Ledger {
    /// Whether `after` can come after `self`: it is well-formed with the
    /// same machines, limits and clock; no count of bytes or of time
    /// blocked is less, for the framework or for a machine; and a machine
    /// that was at its end still is, with the same action pending.
    pub open spec fn precedes(self, after: Ledger) -> bool {
        &&& after.wf()
        &&& after.machines == self.machines
        &&& after.current_time == self.current_time
        &&& after.global_max_padding_frac == self.global_max_padding_frac
        &&& after.global_max_blocking_frac == self.global_max_blocking_frac
        &&& after.global_framework_start == self.global_framework_start
        &&& after.global_padding_sent_bytes >= self.global_padding_sent_bytes
        &&& after.global_nonpadding_sent_bytes >= self.global_nonpadding_sent_bytes
        &&& after.global_blocking_duration.micros >= self.global_blocking_duration.micros
        &&& forall|mi: int|
            0 <= mi < self.machines.len() ==> {
                &&& (#[trigger] after.runtime[mi]).padding_sent >= self.runtime[mi].padding_sent
                &&& after.runtime[mi].nonpadding_sent >= self.runtime[mi].nonpadding_sent
                &&& after.runtime[mi].blocking_duration.micros
                    >= self.runtime[mi].blocking_duration.micros
                &&& after.runtime[mi].machine_start == self.runtime[mi].machine_start
                &&& self.runtime[mi].current_state == STATE_END ==> {
                    &&& after.runtime[mi].current_state == STATE_END
                    &&& after.actions[mi] == self.actions[mi]
                }
            }
    }

    /// Whether `after` has the counts of `self`: the same bytes sent and
    /// time blocked, for the framework and for every machine, the same
    /// blocking going on, and the same MTU.
    pub open spec fn counts_as(self, after: Ledger) -> bool {
        &&& after.runtime.len() == self.runtime.len()
        &&& after.global_padding_sent_bytes == self.global_padding_sent_bytes
        &&& after.global_nonpadding_sent_bytes == self.global_nonpadding_sent_bytes
        &&& after.global_blocking_duration == self.global_blocking_duration
        &&& after.global_blocking_started == self.global_blocking_started
        &&& after.global_blocking_active == self.global_blocking_active
        &&& after.mtu == self.mtu
        &&& forall|mi: int|
            0 <= mi < self.runtime.len() ==> same_counts(
                self.runtime[mi],
                #[trigger] after.runtime[mi],
            )
    }

    /// Making the action of the current state pending gives what can come
    /// after, and changes no count and no state.
    pub proof fn lemma_act_follows(self, mi: int, d: Draws)
        requires
            self.wf(),
            self.running(mi),
        ensures
            self.precedes(self.act(mi, d)),
            self.act(mi, d).runtime == self.runtime,
            self.counts_as(self.act(mi, d)),
    {
        let after = self.act(mi, d);
        if self.below_action_limits(mi) {
            let a = self.scheduled(mi, d);
            assert(a.is_some() ==> a.unwrap().machine_of() == MachineId(mi as usize));
            assert forall|mj: int|
                0 <= mj < after.actions.len() && (#[trigger] after.actions[mj]).is_some() implies after.actions[mj].unwrap().machine_of().0
                == mj by {
                if mj != mi {
                    assert(after.actions[mj] == self.actions[mj]);
                }
            }
        }
    }

    /// A transition of a machine gives what can come after, and changes
    /// no count; one that leaves the state unchanged changes nothing that
    /// is kept for the machines.
    pub proof fn lemma_transition_follows(self, mi: int, event: Event, n: u64, d: Draws)
        requires
            self.wf(),
        ensures
            self.precedes(self.transition(mi, event, n, d).0),
            self.counts_as(self.transition(mi, event, n, d).0),
            self.transition(mi, event, n, d).1 == StateChange::Unchanged ==> self.transition(
                mi,
                event,
                n,
                d,
            ).0.runtime == self.runtime,
    {
        let (after, change) = self.transition(mi, event, n, d);
        if self.running(mi) && !(!self.machines[mi].include_small_packets && 0 < n
            <= MAX_SMALL_PACKET_SIZE) {
            match self.current(mi).picked(event, d.pick) {
                None => {},
                Some(next) => {
                    if next == STATE_CANCEL {
                        assert forall|mj: int|
                            0 <= mj < after.actions.len() && (
                            #[trigger] after.actions[mj]).is_some() implies after.actions[mj].unwrap().machine_of().0
                            == mj by {
                            if mj != mi {
                                assert(after.actions[mj] == self.actions[mj]);
                            }
                        }
                    } else if next == STATE_END {
                        assert(after.named());
                    } else if next >= self.machines[mi].states@.len() {
                    } else if next == self.runtime[mi].current_state {
                        self.lemma_act_follows(mi, d);
                    } else {
                        let moved = self.with_runtime(
                            mi,
                            MachineRuntime {
                                current_state: next,
                                state_limit: limit_for(
                                    self.machines[mi].states@[next as int],
                                    d.limit,
                                ),
                                ..self.runtime[mi]
                            },
                        );
                        assert(moved.named());
                        assert(moved.wf());
                        moved.lemma_act_follows(mi, d);
                        assert(self.precedes(moved));
                        assert(self.counts_as(moved));
                    }
                },
            }
        }
    }

    /// The use of the state limit gives what can come after, and changes
    /// no count.
    pub proof fn lemma_decrement_follows(self, mi: int, d: Draws)
        requires
            self.wf(),
        ensures
            self.precedes(self.decrement_limit(mi, d)),
            self.counts_as(self.decrement_limit(mi, d)),
    {
        if self.running(mi) {
            let rt = self.runtime[mi];
            let left = if rt.state_limit > 0 {
                (rt.state_limit - 1) as u64
            } else {
                0
            };
            let less = self.with_runtime(mi, MachineRuntime { state_limit: left, ..rt });
            assert(less.named());
            assert(less.wf());
            assert(self.precedes(less));
            assert(self.counts_as(less));
            let cleared = less.with_action(mi, None);
            assert forall|mj: int|
                0 <= mj < cleared.actions.len() && (#[trigger] cleared.actions[mj]).is_some() implies cleared.actions[mj].unwrap().machine_of().0
                == mj by {
                assert(cleared.actions[mj] == less.actions[mj]);
            }
            assert(cleared.wf());
            assert(self.precedes(cleared));
            assert(self.counts_as(cleared));
            cleared.lemma_transition_follows(mi, Event::LimitReached, 0, d);
        }
    }

    /// What an event does to one machine gives what can come after. It
    /// changes the counts of that machine as the event asks, if the event
    /// reaches the machine, and no other count.
    pub proof fn lemma_step_follows(self, mi: int, e: TriggerEvent, blocked: Duration, d: EventDraws)
        requires
            self.wf(),
        ensures
            self.precedes(self.step(mi, e, blocked, d)),
            self.has(mi) && reaches(e, mi) ==> self.account_machine(mi, e, blocked).counts_as(
                self.step(mi, e, blocked, d),
            ),
            !(self.has(mi) && reaches(e, mi)) ==> self.step(mi, e, blocked, d) == self,
    {
        if self.has(mi) && reaches(e, mi) {
            let counted = self.account_machine(mi, e, blocked);
            assert(counted.actions == self.actions);
            assert(counted.named());
            assert(counted.wf());
            assert(self.precedes(counted));
            counted.lemma_transition_follows(mi, e.kind(), bytes_of(e), d.0);
            let (moved, change) = counted.transition(mi, e.kind(), bytes_of(e), d.0);
            moved.lemma_decrement_follows(mi, d.1);
        }
    }

    /// What an event does to the first machines changes no count of the
    /// framework; it counts the event for each of these machines that the
    /// event reaches, and changes no other count.
    pub proof fn lemma_run_counts(self, e: TriggerEvent, blocked: Duration, ds: Seq<EventDraws>, upto: int)
        requires
            self.wf(),
            upto <= self.machines.len(),
        ensures
            ({
                let after = self.run(e, blocked, ds, upto);
                &&& after.runtime.len() == self.runtime.len()
                &&& after.global_padding_sent_bytes == self.global_padding_sent_bytes
                &&& after.global_nonpadding_sent_bytes == self.global_nonpadding_sent_bytes
                &&& after.global_blocking_duration == self.global_blocking_duration
                &&& after.global_blocking_started == self.global_blocking_started
                &&& after.global_blocking_active == self.global_blocking_active
                &&& after.mtu == self.mtu
                &&& forall|mi: int|
                    0 <= mi < self.runtime.len() ==> same_counts(
                        #[trigger] after.runtime[mi],
                        if mi < upto && reaches(e, mi) {
                            counted(self.runtime[mi], e, blocked)
                        } else {
                            self.runtime[mi]
                        },
                    )
            }),
        decreases upto,
    {
        if upto > 0 {
            let before = self.run(e, blocked, ds, upto - 1);
            self.lemma_run_counts(e, blocked, ds, upto - 1);
            self.lemma_run_follows(e, blocked, ds, upto - 1);
            before.lemma_step_follows(upto - 1, e, blocked, ds[upto - 1]);
            let after = before.step(upto - 1, e, blocked, ds[upto - 1]);
            if reaches(e, upto - 1) {
                let counted_here = before.account_machine(upto - 1, e, blocked);
                assert forall|mi: int| 0 <= mi < self.runtime.len() implies same_counts(
                    #[trigger] after.runtime[mi],
                    if mi < upto && reaches(e, mi) {
                        counted(self.runtime[mi], e, blocked)
                    } else {
                        self.runtime[mi]
                    },
                ) by {
                    assert(same_counts(counted_here.runtime[mi], after.runtime[mi]));
                    assert(same_counts(
                        before.runtime[mi],
                        if mi < upto - 1 && reaches(e, mi) {
                            counted(self.runtime[mi], e, blocked)
                        } else {
                            self.runtime[mi]
                        },
                    ));
                }
            }
        }
    }

    /// What an event does to the counts. Padding bytes and non-padding
    /// bytes that were sent are added to those of the framework and of
    /// every machine that the event reaches; at the end of blocking the
    /// time since it began is added to the time blocked of the framework
    /// and of every machine. Each sum is held to the largest number that
    /// can be counted: where it fits, it is the sum itself. No event
    /// changes another count.
    pub proof fn law_event_is_counted(self, e: TriggerEvent, ds: Seq<EventDraws>)
        requires
            self.wf(),
        ensures
            ({
                let after = self.process_event(e, ds);
                let blocked = self.blocked_until(e);
                &&& after.global_padding_sent_bytes == match e {
                    TriggerEvent::PaddingSent { bytes_sent, .. } => add_bytes(
                        self.global_padding_sent_bytes,
                        bytes_sent,
                    ),
                    _ => self.global_padding_sent_bytes,
                }
                &&& after.global_nonpadding_sent_bytes == match e {
                    TriggerEvent::NormalSent { bytes_sent } => add_bytes(
                        self.global_nonpadding_sent_bytes,
                        bytes_sent,
                    ),
                    _ => self.global_nonpadding_sent_bytes,
                }
                &&& after.global_blocking_duration == self.global_blocking_duration.plus(blocked)
                &&& self.global_blocking_duration.micros + blocked.micros <= u64::MAX
                    ==> after.global_blocking_duration.micros
                    == self.global_blocking_duration.micros + blocked.micros
                &&& !(e is BlockingEnd && self.global_blocking_active) ==> blocked.micros == 0
                &&& forall|mi: int|
                    0 <= mi < self.machines.len() ==> same_counts(
                        #[trigger] after.runtime[mi],
                        if reaches(e, mi) {
                            counted(self.runtime[mi], e, blocked)
                        } else {
                            self.runtime[mi]
                        },
                    )
                &&& forall|mi: int|
                    0 <= mi < self.machines.len() ==> (#[trigger] after.runtime[mi]).blocking_duration
                        == self.runtime[mi].blocking_duration.plus(blocked)
            }),
    {
        let start = self.account(e);
        let blocked = self.blocked_until(e);
        assert(start.named());
        assert(start.wf());
        start.lemma_run_counts(e, blocked, ds, self.machines.len() as int);
        let after = self.process_event(e, ds);
        assert forall|mi: int| 0 <= mi < self.machines.len() implies (
        #[trigger] after.runtime[mi]).blocking_duration == self.runtime[mi].blocking_duration.plus(
            blocked,
        ) by {
            assert(start.runtime[mi] == self.runtime[mi]);
        }
    }

    /// What an event does to the first machines gives what can come
    /// after.
    pub proof fn lemma_run_follows(self, e: TriggerEvent, blocked: Duration, ds: Seq<EventDraws>, upto: int)
        requires
            self.wf(),
        ensures
            self.precedes(self.run(e, blocked, ds, upto)),
        decreases upto,
    {
        if upto > 0 {
            self.lemma_run_follows(e, blocked, ds, upto - 1);
            self.run(e, blocked, ds, upto - 1).lemma_step_follows(upto - 1, e, blocked, ds[upto - 1]);
        }
    }

    /// What an event does gives what can come after.
    pub proof fn lemma_event_follows(self, e: TriggerEvent, ds: Seq<EventDraws>)
        requires
            self.wf(),
        ensures
            self.precedes(self.process_event(e, ds)),
    {
        self.account(e).lemma_run_follows(
            e,
            self.blocked_until(e),
            ds,
            self.machines.len() as int,
        );
    }

    /// What the first events of a batch do gives what can come after.
    pub proof fn lemma_events_follow(
        self,
        events: Seq<TriggerEvent>,
        dss: Seq<Seq<EventDraws>>,
        upto: int,
    )
        requires
            self.wf(),
        ensures
            self.precedes(self.process_events(events, dss, upto)),
        decreases upto,
    {
        if upto > 0 {
            self.lemma_events_follow(events, dss, upto - 1);
            self.process_events(events, dss, upto - 1).lemma_event_follows(
                events[upto - 1],
                dss[upto - 1],
            );
        }
    }

    /// There are no more pending actions than machines.
    pub proof fn lemma_pending_is_short(self, upto: int)
        requires
            0 <= upto,
        ensures
            self.pending(upto).len() <= upto,
        decreases upto,
    {
        if upto > 0 {
            self.lemma_pending_is_short(upto - 1);
        }
    }

    /// Whatever the events of a batch and whatever is drawn: every
    /// machine is in one of its states or at its end afterwards; there are
    /// no more pending actions than machines, and each is for the machine
    /// at whose place it stands; the padding bytes and the
    /// time blocked that the framework has counted are not less than
    /// before; and a machine that was at its end is at its end, with no
    /// action pending.
    pub proof fn law_batch(self, events: Seq<TriggerEvent>, now: Instant, dss: Seq<Seq<EventDraws>>)
        requires
            self.wf(),
        ensures
            ({
                let after = self.trigger_events(events, now, dss);
                &&& after.wf()
                &&& after.machines == self.machines
                &&& forall|mi: int|
                    0 <= mi < self.machines.len() ==> {
                        ||| (#[trigger] after.runtime[mi]).current_state == STATE_END
                        ||| after.runtime[mi].current_state < self.machines[mi].states@.len()
                    }
                &&& after.emitted().len() <= self.machines.len()
                &&& forall|mi: int|
                    0 <= mi < self.machines.len() && (#[trigger] after.actions[mi]).is_some()
                        ==> after.actions[mi].unwrap().machine_of().0 == mi
                &&& after.global_padding_sent_bytes >= self.global_padding_sent_bytes
                &&& after.global_nonpadding_sent_bytes >= self.global_nonpadding_sent_bytes
                &&& after.global_blocking_duration.micros >= self.global_blocking_duration.micros
                &&& forall|mi: int|
                    0 <= mi < self.machines.len() && (#[trigger] self.runtime[mi]).current_state
                        == STATE_END ==> {
                        &&& after.runtime[mi].current_state == STATE_END
                        &&& after.actions[mi].is_none()
                    }
            }),
    {
        self.cleared(now).lemma_events_follow(events, dss, events.len() as int);
        let after = self.trigger_events(events, now, dss);
        after.lemma_pending_is_short(after.actions.len() as int);
    }

    /// Padding may be sent while the state limit is not used up and
    /// either allowed bytes are left, or the one fraction that counts is
    /// not reached: that of the machine if it has one, else that of the
    /// framework if it has one.
    pub proof fn law_padding_rule(self, mi: int)
        ensures
            ({
                let rt = self.runtime[mi];
                let m = self.machines[mi];
                self.below_limit_padding(mi) == (rt.state_limit > 0 && (rt.padding_sent
                    < m.allowed_padding_bytes || if m.max_padding_frac.millionths > 0 {
                    rt.padding_sent * UNIT < m.max_padding_frac.millionths * (rt.padding_sent
                        + rt.nonpadding_sent)
                } else if self.global_max_padding_frac.millionths > 0 {
                    self.global_padding_sent_bytes * UNIT
                        < self.global_max_padding_frac.millionths * (
                    self.global_padding_sent_bytes + self.global_nonpadding_sent_bytes)
                } else {
                    true
                }))
            }),
    {
    }

    /// No action may be taken in a state whose limit is used up.
    pub proof fn law_no_action_without_limit(self, mi: int)
        requires
            self.runtime[mi].state_limit == 0,
        ensures
            !self.below_action_limits(mi),
    {
    }

    /// A machine without allowed padding bytes and with a fraction of
    /// padding more than zero may send padding only while its padding
    /// bytes are less than that fraction of all the bytes that it saw
    /// sent.
    pub proof fn law_padding_stays_below_fraction(self, mi: int)
        requires
            self.machines[mi].allowed_padding_bytes == 0,
            self.machines[mi].max_padding_frac.millionths > 0,
            self.below_limit_padding(mi),
        ensures
            self.runtime[mi].padding_sent * UNIT < self.machines[mi].max_padding_frac.millionths * (
            self.runtime[mi].padding_sent + self.runtime[mi].nonpadding_sent),
    {
    }
}

} // verus!

verus! {

/// The first fault among the machines from place `from` on.
pub open spec fn machines_fault_from(machines: Seq<Machine>, from: int) -> Option<Error>
    decreases machines.len() - from,
{
    if from < 0 || from >= machines.len() {
        None
    } else {
        match machines[from].fault() {
            Some(e) => Some(e),
            None => machines_fault_from(machines, from + 1),
        }
    }
}

/// Where no machine from place `from` on has a fault, each of them is
/// valid.
pub proof fn lemma_machines_faultless(machines: Seq<Machine>, from: int, i: int)
    requires
        0 <= from <= i < machines.len(),
        machines_fault_from(machines, from).is_none(),
    ensures
        machines[i].valid(),
    decreases machines.len() - from,
{
    if from < i {
        lemma_machines_faultless(machines, from + 1, i);
    }
}

impl Ledger {
    /// Why no framework can be made of the machines and limits, if so:
    /// the first fault of a machine; or a limit of the framework that is
    /// not a fraction, that of padding first.
    pub open spec fn fault_of(
        machines: Seq<Machine>,
        max_padding_frac: Fixed,
        max_blocking_frac: Fixed,
    ) -> Option<Error> {
        match machines_fault_from(machines, 0) {
            Some(e) => Some(e),
            None => if !max_padding_frac.is_fraction() {
                Some(Error::PaddingLimit)
            } else if !max_blocking_frac.is_fraction() {
                Some(Error::BlockingLimit)
            } else {
                None
            },
        }
    }

    /// A framework that was started at the time `now`: every machine is
    /// in its first state, with the limit that the draw for the machine
    /// gives; nothing is pending, nothing was sent, nothing was blocked.
    pub open spec fn started(
        machines: Seq<Machine>,
        max_padding_frac: Fixed,
        max_blocking_frac: Fixed,
        now: Instant,
        raws: Seq<Fixed>,
    ) -> Ledger {
        Ledger {
            machines,
            actions: Seq::new(machines.len(), |i: int| None::<TriggerAction>),
            runtime: Seq::new(
                machines.len(),
                |i: int|
                    MachineRuntime {
                        current_state: 0,
                        state_limit: limit_for(machines[i].states@[0], raws[i]),
                        padding_sent: 0,
                        nonpadding_sent: 0,
                        blocking_duration: Duration { micros: 0 },
                        machine_start: now,
                    },
            ),
            current_time: now,
            global_max_padding_frac: max_padding_frac,
            global_max_blocking_frac: max_blocking_frac,
            global_nonpadding_sent_bytes: 0,
            global_padding_sent_bytes: 0,
            global_blocking_duration: Duration { micros: 0 },
            global_blocking_started: now,
            global_blocking_active: false,
            global_framework_start: now,
            mtu: 0,
        }
    }
}

} // verus!
