//! The machine runtime: events go in, actions come out.

use vstd::prelude::*;
use rand::rngs::StdRng;
use crate::action::{Action, Timer, TriggerAction};
use crate::constants::{MAX_SMALL_PACKET_SIZE, STATE_CANCEL, STATE_END, STATE_LIMIT_MAX};
use crate::dist::Sampler;
use crate::error::Error;
use crate::event::Event;
use crate::fixed::{Fixed, UNIT};
use crate::ledger::{
    Draws,
    EventDraws,
    Ledger,
    MachineRuntime,
    StateChange,
    add_bytes,
    lemma_machines_faultless,
    limit_for,
    machines_fault_from,
};
use crate::machine::Machine;
use crate::time::{Duration, Instant};

verus! {

/// Names one machine of a framework: its place in the vector of machines
/// that the framework was made with.
#[derive(Clone, Copy, Debug, PartialEq, Eq, Structural, Hash)]
pub struct MachineId(pub usize);

impl MachineId {
    /// The identifier of the machine at place `raw`.
    pub fn from_raw(raw: usize) -> (r: MachineId)
        ensures
            r.0 == raw,
    {
        MachineId(raw)
    }

    /// The place of the machine.
    pub fn into_raw(self) -> (r: usize)
        ensures
            r == self.0,
    {
        self.0
    }
}

/// An event that the embedder reports to the framework.
#[derive(Clone, Copy, Debug, PartialEq, Eq, Structural, Hash)]
pub enum TriggerEvent {
    /// Non-padding bytes were received.
    NormalRecv { bytes_recv: u16 },
    /// Non-padding bytes were sent.
    NormalSent { bytes_sent: u16 },
    /// Padding bytes were received.
    PaddingRecv { bytes_recv: u16 },
    /// Padding bytes of a machine were sent.
    PaddingSent { bytes_sent: u16, machine: MachineId },
    /// A packet was received in the tunnel.
    TunnelRecv,
    /// A packet was sent in the tunnel.
    TunnelSent,
    /// Blocking of outgoing traffic began, caused by a machine.
    BlockingBegin { machine: MachineId },
    /// Blocking of outgoing traffic ended.
    BlockingEnd,
    /// The state limit of a machine was used up. The framework raises this
    /// event itself.
    LimitReached { machine: MachineId },
    /// A counter of a machine reached zero.
    CounterZero { machine: MachineId },
    /// The timer of a machine was started.
    TimerBegin { machine: MachineId },
    /// The timer of a machine ran out.
    TimerEnd { machine: MachineId },
    /// The MTU of the protected connection changed.
    UpdateMTU { new_mtu: u16 },
}

impl TriggerEvent {
    /// The kind of the event.
    pub open spec fn kind(self) -> Event {
        match self {
            TriggerEvent::NormalRecv { .. } => Event::NormalRecv,
            TriggerEvent::NormalSent { .. } => Event::NormalSent,
            TriggerEvent::PaddingRecv { .. } => Event::PaddingRecv,
            TriggerEvent::PaddingSent { .. } => Event::PaddingSent,
            TriggerEvent::TunnelRecv => Event::TunnelRecv,
            TriggerEvent::TunnelSent => Event::TunnelSent,
            TriggerEvent::BlockingBegin { .. } => Event::BlockingBegin,
            TriggerEvent::BlockingEnd => Event::BlockingEnd,
            TriggerEvent::LimitReached { .. } => Event::LimitReached,
            TriggerEvent::CounterZero { .. } => Event::CounterZero,
            TriggerEvent::TimerBegin { .. } => Event::TimerBegin,
            TriggerEvent::TimerEnd { .. } => Event::TimerEnd,
            TriggerEvent::UpdateMTU { .. } => Event::UpdateMTU,
        }
    }

    /// The kind of the event.
    pub fn to_event(&self) -> (r: Event)
        ensures
            r == self.kind(),
    {
        match self {
            TriggerEvent::NormalRecv { .. } => Event::NormalRecv,
            TriggerEvent::NormalSent { .. } => Event::NormalSent,
            TriggerEvent::PaddingRecv { .. } => Event::PaddingRecv,
            TriggerEvent::PaddingSent { .. } => Event::PaddingSent,
            TriggerEvent::TunnelRecv => Event::TunnelRecv,
            TriggerEvent::TunnelSent => Event::TunnelSent,
            TriggerEvent::BlockingBegin { .. } => Event::BlockingBegin,
            TriggerEvent::BlockingEnd => Event::BlockingEnd,
            TriggerEvent::LimitReached { .. } => Event::LimitReached,
            TriggerEvent::CounterZero { .. } => Event::CounterZero,
            TriggerEvent::TimerBegin { .. } => Event::TimerBegin,
            TriggerEvent::TimerEnd { .. } => Event::TimerEnd,
            TriggerEvent::UpdateMTU { .. } => Event::UpdateMTU,
        }
    }

    /// Whether the event is of kind `e`.
    pub fn is_event(&self, e: Event) -> (r: bool)
        ensures
            r == (self.kind() == e),
    {
        self.to_event() == e
    }
}

} // verus!

verus! {

/// Runs machines. It takes the events that the embedder reports and gives
/// the actions that the embedder is to take: per batch of events at most
/// one for each machine.
pub struct Framework<S: Sampler> {
    actions: Vec<Option<TriggerAction>>,
    current_time: Instant,
    machines: Vec<Machine>,
    runtime: Vec<MachineRuntime>,
    global_max_padding_frac: Fixed,
    global_nonpadding_sent_bytes: u64,
    global_padding_sent_bytes: u64,
    global_max_blocking_frac: Fixed,
    global_blocking_duration: Duration,
    global_blocking_started: Instant,
    global_blocking_active: bool,
    global_framework_start: Instant,
    mtu: u16,
    rng: StdRng,
    sampler: S,
}

impl<S: Sampler> View for Framework<S> {
    type V = Ledger;

    closed spec fn view(&self) -> Ledger {
        Ledger {
            machines: self.machines@,
            actions: self.actions@,
            runtime: self.runtime@,
            current_time: self.current_time,
            global_max_padding_frac: self.global_max_padding_frac,
            global_max_blocking_frac: self.global_max_blocking_frac,
            global_nonpadding_sent_bytes: self.global_nonpadding_sent_bytes,
            global_padding_sent_bytes: self.global_padding_sent_bytes,
            global_blocking_duration: self.global_blocking_duration,
            global_blocking_started: self.global_blocking_started,
            global_blocking_active: self.global_blocking_active,
            global_framework_start: self.global_framework_start,
            mtu: self.mtu,
        }
    }
}

/// The sum of two byte counts, held to the largest there is.
fn saturating_bytes(have: u64, more: u16) -> (r: u64)
    ensures
        r == add_bytes(have, more),
{
    if have > u64::MAX - more as u64 {
        u64::MAX
    } else {
        have + more as u64
    }
}

/// Whether `part` of `whole` is the fraction `frac` or more.
fn at_least(part: u64, whole: u128, frac: Fixed) -> (r: bool)
    requires
        frac.is_fraction(),
        whole <= 2 * u64::MAX,
    ensures
        r == Ledger::at_least(part, whole as int, frac),
{
    let f: u128 = frac.millionths as u128;
    assert(f * whole <= 1_000_000 * (2 * u64::MAX)) by (nonlinear_arith)
        requires
            0 <= f <= 1_000_000,
            0 <= whole <= 2 * u64::MAX,
    ;
    (part as u128) * 1_000_000 >= f * whole
}

/// Whether the time `part` is the fraction `frac` or more of the time
/// `whole`.
fn blocked_at_least(part: u64, whole: u64, frac: Fixed) -> (r: bool)
    requires
        frac.is_fraction(),
    ensures
        r == Ledger::blocked_at_least(part, whole as int, frac),
{
    if whole == 0 {
        part > 0
    } else {
        at_least(part, whole as u128, frac)
    }
}

impl<S: Sampler> Framework<S> {
    /// How many machines the framework runs.
    pub fn num_machines(&self) -> (r: usize)
        requires
            self@.wf(),
        ensures
            r == self@.machines.len(),
    {
        self.machines.len()
    }

    /// The action that is pending for the machine at `mi` since the last
    /// batch of events, if any.
    pub fn action(&self, mi: usize) -> (r: Option<TriggerAction>)
        requires
            self@.wf(),
        ensures
            r == if mi < self@.machines.len() {
                self@.actions[mi as int]
            } else {
                None
            },
    {
        if mi < self.actions.len() {
            self.actions[mi]
        } else {
            None
        }
    }

    /// What the framework keeps for the machine at `mi`.
    pub fn runtime(&self, mi: usize) -> (r: Option<MachineRuntime>)
        requires
            self@.wf(),
        ensures
            r == if mi < self@.machines.len() {
                Some(self@.runtime[mi as int])
            } else {
                None
            },
    {
        if mi < self.runtime.len() {
            Some(self.runtime[mi])
        } else {
            None
        }
    }

    /// All padding bytes that were reported as sent.
    pub fn padding_sent_bytes(&self) -> (r: u64)
        ensures
            r == self@.global_padding_sent_bytes,
    {
        self.global_padding_sent_bytes
    }

    /// All non-padding bytes that were reported as sent.
    pub fn nonpadding_sent_bytes(&self) -> (r: u64)
        ensures
            r == self@.global_nonpadding_sent_bytes,
    {
        self.global_nonpadding_sent_bytes
    }

    /// The time that sending was blocked, without blocking that goes on.
    pub fn blocking_duration(&self) -> (r: Duration)
        ensures
            r == self@.global_blocking_duration,
    {
        self.global_blocking_duration
    }

    /// The MTU of the connection, as last reported; zero before any
    /// report.
    pub fn mtu(&self) -> (r: u16)
        ensures
            r == self@.mtu,
    {
        self.mtu
    }

    /// Whether the machine at `mi` may send padding.
    fn below_limit_padding(&self, mi: usize) -> (r: bool)
        requires
            self@.wf(),
            self@.has(mi as int),
        ensures
            r == self@.below_limit_padding(mi as int),
    {
        let rt = self.runtime[mi];
        let m = &self.machines[mi];
        if rt.padding_sent < m.allowed_padding_bytes {
            return rt.state_limit > 0;
        }
        if m.max_padding_frac.millionths > 0 {
            let total: u128 = rt.padding_sent as u128 + rt.nonpadding_sent as u128;
            if at_least(rt.padding_sent, total, m.max_padding_frac) {
                return false;
            }
        } else if self.global_max_padding_frac.millionths > 0 {
            let total: u128 = self.global_padding_sent_bytes as u128
                + self.global_nonpadding_sent_bytes as u128;
            if at_least(self.global_padding_sent_bytes, total, self.global_max_padding_frac) {
                return false;
            }
        }
        rt.state_limit > 0
    }

    /// Whether the machine at `mi` may block.
    fn below_limit_blocking(&self, mi: usize) -> (r: bool)
        requires
            self@.wf(),
            self@.running(mi as int),
        ensures
            r == self@.below_limit_blocking(mi as int),
    {
        let rt = self.runtime[mi];
        let m = &self.machines[mi];
        let replaces = match m.states[rt.current_state].action {
            Some(Action::BlockOutgoing { replace, .. }) => replace,
            _ => false,
        };
        if replaces && !self.global_blocking_active {
            return rt.state_limit > 0;
        }
        let ongoing = if self.global_blocking_active {
            self.current_time.duration_since(self.global_blocking_started)
        } else {
            Duration { micros: 0 }
        };
        let m_block = rt.blocking_duration.saturating_add(ongoing);
        let g_block = self.global_blocking_duration.saturating_add(ongoing);
        if m_block.micros < m.allowed_blocked_microsec {
            return rt.state_limit > 0;
        }
        if m.max_blocking_frac.millionths > 0 {
            let run = self.current_time.duration_since(rt.machine_start);
            if blocked_at_least(m_block.micros, run.micros, m.max_blocking_frac) {
                return false;
            }
        } else if self.global_max_blocking_frac.millionths > 0 {
            let run = self.current_time.duration_since(self.global_framework_start);
            if blocked_at_least(g_block.micros, run.micros, self.global_max_blocking_frac) {
                return false;
            }
        }
        rt.state_limit > 0
    }

    /// Whether the action of the current state of the machine at `mi` may
    /// be taken. It may not where the limit of the state is used up.
    pub fn below_action_limits(&self, mi: usize) -> (r: bool)
        requires
            self@.wf(),
        ensures
            r == self@.below_action_limits(mi as int),
            self@.has(mi as int) && self@.runtime[mi as int].state_limit == 0 ==> !r,
    {
        if mi >= self.machines.len() {
            return false;
        }
        let rt = self.runtime[mi];
        if rt.current_state == STATE_END {
            return false;
        }
        match self.machines[mi].states[rt.current_state].action {
            None => false,
            Some(Action::BlockOutgoing { .. }) => self.below_limit_blocking(mi),
            Some(Action::SendPadding { .. }) => self.below_limit_padding(mi),
            Some(_) => rt.state_limit > 0,
        }
    }
}

} // verus!

verus! {

impl<S: Sampler> Framework<S> {
    /// Draws the timeout and the duration of the action of the current
    /// state of the machine at `mi`, as far as the action has them, and
    /// says what the embedder is to do.
    fn schedule_action(&mut self, mi: usize) -> (r: Option<TriggerAction>)
        requires
            old(self)@.wf(),
            old(self)@.running(mi as int),
        ensures
            final(self)@ == old(self)@,
            exists|d: Draws| r == #[trigger] old(self)@.scheduled(mi as int, d),
    {
        let machine = MachineId(mi);
        let action = self.machines[mi].states[self.runtime[mi].current_state].action;
        let ghost zero = Fixed { millionths: 0 };
        match action {
            None => {
                assert(self@.scheduled(
                    mi as int,
                    Draws { pick: 0, limit: zero, timeout: zero, duration: zero },
                ).is_none());
                None
            },
            Some(a) => {
                let timeout = a.sample_timeout(&mut self.sampler, &mut self.rng);
                let duration = a.sample_duration(&mut self.sampler, &mut self.rng);
                let ghost raw_t = choose|raw: Fixed| timeout == a.timeout_of(raw);
                let ghost raw_d = choose|raw: Fixed| duration == a.duration_of(raw);
                let ghost d = Draws { pick: 0, limit: zero, timeout: raw_t, duration: raw_d };
                let r = match a {
                    Action::Cancel { timer } => TriggerAction::Cancel { machine, timer },
                    Action::SendPadding { bypass, replace, .. } => TriggerAction::SendPadding {
                        timeout: Duration { micros: timeout.unwrap() },
                        bypass,
                        replace,
                        machine,
                    },
                    Action::BlockOutgoing { bypass, replace, .. } => TriggerAction::BlockOutgoing {
                        timeout: Duration { micros: timeout.unwrap() },
                        duration: Duration { micros: duration.unwrap() },
                        bypass,
                        replace,
                        machine,
                    },
                    Action::UpdateTimer { replace, .. } => TriggerAction::UpdateTimer {
                        duration: Duration { micros: duration.unwrap() },
                        replace,
                        machine,
                    },
                };
                assert(Some(r) == old(self)@.scheduled(mi as int, d));
                Some(r)
            },
        }
    }

    /// Makes the action of the current state of the machine at `mi`
    /// pending, if it may be taken.
    fn act(&mut self, mi: usize) -> (d: Ghost<Draws>)
        requires
            old(self)@.wf(),
            old(self)@.running(mi as int),
        ensures
            final(self)@ == old(self)@.act(mi as int, d@),
    {
        let ghost zero = Fixed { millionths: 0 };
        if self.below_action_limits(mi) {
            let a = self.schedule_action(mi);
            let ghost d = choose|d: Draws| a == #[trigger] old(self)@.scheduled(mi as int, d);
            self.actions.set(mi, a);
            Ghost(d)
        } else {
            Ghost(Draws { pick: 0, limit: zero, timeout: zero, duration: zero })
        }
    }

    /// What an event of kind `event` that carries `n` bytes does to the
    /// machine at `mi`. Whatever is drawn, the framework is afterwards
    /// what [`Ledger::transition`] gives for the draws.
    fn transition(&mut self, mi: usize, event: Event, n: u64) -> (r: StateChange)
        requires
            old(self)@.wf(),
            old(self)@.has(mi as int),
        ensures
            final(self)@.wf(),
            exists|d: Draws| #[trigger]
                old(self)@.transitions_to(final(self)@, r, mi as int, event, n, d),
    {
        let ghost zero = Fixed { millionths: 0 };
        let ghost none = Draws { pick: 0, limit: zero, timeout: zero, duration: zero };
        let ghost before = self@;
        let cs = self.runtime[mi].current_state;
        if cs == STATE_END {
            proof {
                before.lemma_transition_follows(mi as int, event, n, none);
            }
            assert(before.transitions_to(self@, StateChange::Unchanged, mi as int, event, n, none));
            return StateChange::Unchanged;
        }
        if !self.machines[mi].include_small_packets && n > 0 && n <= MAX_SMALL_PACKET_SIZE {
            proof {
                before.lemma_transition_follows(mi as int, event, n, none);
            }
            assert(before.transitions_to(self@, StateChange::Unchanged, mi as int, event, n, none));
            return StateChange::Unchanged;
        }
        let next = self.machines[mi].states[cs].sample_state(event, &mut self.rng);
        let ghost pick = choose|draw: u32|
            draw < UNIT && next == before.current(mi as int).picked(event, draw);
        let ghost picked = Draws { pick, ..none };
        match next {
            None => {
                proof {
                    before.lemma_transition_follows(mi as int, event, n, picked);
                }
                assert(before.transitions_to(
                    self@,
                    StateChange::Unchanged,
                    mi as int,
                    event,
                    n,
                    picked,
                ));
                StateChange::Unchanged
            },
            Some(next) => {
                if next == STATE_CANCEL {
                    self.actions.set(
                        mi,
                        Some(TriggerAction::Cancel { machine: MachineId(mi), timer: Timer::Action }),
                    );
                    proof {
                        before.lemma_transition_follows(mi as int, event, n, picked);
                    }
                    assert(before.transitions_to(
                        self@,
                        StateChange::Unchanged,
                        mi as int,
                        event,
                        n,
                        picked,
                    ));
                    StateChange::Unchanged
                } else if next == STATE_END {
                    let mut rt = self.runtime[mi];
                    rt.current_state = STATE_END;
                    self.runtime.set(mi, rt);
                    proof {
                        before.lemma_transition_follows(mi as int, event, n, picked);
                    }
                    assert(before.transitions_to(
                        self@,
                        StateChange::Changed,
                        mi as int,
                        event,
                        n,
                        picked,
                    ));
                    StateChange::Changed
                } else if next >= self.machines[mi].states.len() {
                    proof {
                        before.lemma_transition_follows(mi as int, event, n, picked);
                    }
                    assert(before.transitions_to(
                        self@,
                        StateChange::Unchanged,
                        mi as int,
                        event,
                        n,
                        picked,
                    ));
                    StateChange::Unchanged
                } else if next == cs {
                    let d = self.act(mi);
                    proof {
                        let all = Draws { pick, ..d@ };
                        before.lemma_transition_follows(mi as int, event, n, all);
                        assert(before.transitions_to(
                            self@,
                            StateChange::Unchanged,
                            mi as int,
                            event,
                            n,
                            all,
                        ));
                    }
                    StateChange::Unchanged
                } else {
                    let limit = match self.machines[mi].states[next].action {
                        Some(a) => a.sample_limit(&mut self.sampler, &mut self.rng),
                        None => STATE_LIMIT_MAX,
                    };
                    let ghost raw_limit = match before.machines[mi as int].states@[next as int].action {
                        Some(a) => choose|raw: Fixed| limit == a.limit_of(raw),
                        None => zero,
                    };
                    let mut rt = self.runtime[mi];
                    rt.current_state = next;
                    rt.state_limit = limit;
                    self.runtime.set(mi, rt);
                    let d = self.act(mi);
                    proof {
                        let all = Draws { pick, limit: raw_limit, ..d@ };
                        before.lemma_transition_follows(mi as int, event, n, all);
                        assert(before.transitions_to(
                            self@,
                            StateChange::Changed,
                            mi as int,
                            event,
                            n,
                            all,
                        ));
                    }
                    StateChange::Changed
                }
            },
        }
    }

    /// Uses up one of the state limit of the machine at `mi`; at zero, a
    /// state with a limit loses its pending action and gets the event
    /// `LimitReached`.
    fn decrement_limit(&mut self, mi: usize)
        requires
            old(self)@.wf(),
            old(self)@.has(mi as int),
        ensures
            final(self)@.wf(),
            exists|d: Draws| #[trigger] old(self)@.decrements_to(final(self)@, mi as int, d),
    {
        let ghost zero = Fixed { millionths: 0 };
        let ghost none = Draws { pick: 0, limit: zero, timeout: zero, duration: zero };
        let ghost before = self@;
        let mut rt = self.runtime[mi];
        if rt.current_state == STATE_END {
            assert(before.decrements_to(self@, mi as int, none));
            return ;
        }
        if rt.state_limit > 0 {
            rt.state_limit = rt.state_limit - 1;
        }
        self.runtime.set(mi, rt);
        let limited = match self.machines[mi].states[rt.current_state].action {
            Some(a) => a.has_limit(),
            None => false,
        };
        if rt.state_limit == 0 && limited {
            self.actions.set(mi, None);
            let ghost cleared = self@;
            let change = self.transition(mi, Event::LimitReached, 0);
            proof {
                let d = choose|d: Draws| #[trigger]
                    cleared.transitions_to(self@, change, mi as int, Event::LimitReached, 0, d);
                assert(before.decrements_to(self@, mi as int, d));
            }
        } else {
            assert(before.decrements_to(self@, mi as int, none));
        }
    }
}

} // verus!

verus! {

impl<S: Sampler> Framework<S> {
    /// A framework that runs the machines, started at `current_time`. The
    /// limits are fractions of padding and of blocking that hold for all
    /// machines together; zero is no limit. Every machine starts in its
    /// first state, with a limit drawn for that state.
    ///
    /// No framework is made of a machine that is not valid, nor with a
    /// limit that is not in `[0, 1]`.
    pub fn new(
        machines: Vec<Machine>,
        max_padding_frac: Fixed,
        max_blocking_frac: Fixed,
        current_time: Instant,
        rng: StdRng,
        sampler: S,
    ) -> (r: Result<Framework<S>, Error>)
        ensures
            match Ledger::fault_of(machines@, max_padding_frac, max_blocking_frac) {
                Some(e) => r is Err && r->Err_0 == e,
                None => r is Ok && r->Ok_0@.wf() && exists|raws: Seq<Fixed>|
                    r->Ok_0@ == #[trigger] Ledger::started(
                        machines@,
                        max_padding_frac,
                        max_blocking_frac,
                        current_time,
                        raws,
                    ),
            },
    {
        let mut rng = rng;
        let mut sampler = sampler;
        let n = machines.len();
        let mut k: usize = 0;
        while k < n
            invariant
                k <= n,
                n == machines@.len(),
                machines_fault_from(machines@, 0) == machines_fault_from(machines@, k as int),
            decreases n - k,
        {
            match machines[k].validate() {
                Ok(()) => {},
                Err(e) => {
                    return Err(e);
                },
            }
            k = k + 1;
        }
        if !max_padding_frac.in_unit_interval() {
            return Err(Error::PaddingLimit);
        }
        if !max_blocking_frac.in_unit_interval() {
            return Err(Error::BlockingLimit);
        }
        let ghost zero = Fixed { millionths: 0 };
        let ghost mut raws: Seq<Fixed> = Seq::empty();
        let mut runtime: Vec<MachineRuntime> = Vec::new();
        let mut actions: Vec<Option<TriggerAction>> = Vec::new();
        let mut k: usize = 0;
        while k < n
            invariant
                k <= n,
                n == machines@.len(),
                machines_fault_from(machines@, 0).is_none(),
                runtime@.len() == k,
                actions@.len() == k,
                raws.len() == k,
                forall|i: int| 0 <= i < k ==> (#[trigger] actions@[i]).is_none(),
                forall|i: int|
                    0 <= i < k ==> #[trigger] runtime@[i] == (MachineRuntime {
                        current_state: 0,
                        state_limit: limit_for(machines@[i].states@[0], raws[i]),
                        padding_sent: 0,
                        nonpadding_sent: 0,
                        blocking_duration: Duration { micros: 0 },
                        machine_start: current_time,
                    }),
            decreases n - k,
        {
            proof {
                lemma_machines_faultless(machines@, 0, k as int);
            }
            let limit = match machines[k].states[0].action {
                Some(a) => a.sample_limit(&mut sampler, &mut rng),
                None => STATE_LIMIT_MAX,
            };
            proof {
                let raw = match machines@[k as int].states@[0].action {
                    Some(a) => choose|raw: Fixed| limit == a.limit_of(raw),
                    None => zero,
                };
                raws = raws.push(raw);
            }
            runtime.push(
                MachineRuntime {
                    current_state: 0,
                    state_limit: limit,
                    padding_sent: 0,
                    nonpadding_sent: 0,
                    blocking_duration: Duration { micros: 0 },
                    machine_start: current_time,
                },
            );
            actions.push(None);
            k = k + 1;
        }
        let ghost all = machines@;
        let made = Framework {
            actions,
            current_time,
            machines,
            runtime,
            global_max_padding_frac: max_padding_frac,
            global_nonpadding_sent_bytes: 0,
            global_padding_sent_bytes: 0,
            global_max_blocking_frac: max_blocking_frac,
            global_blocking_duration: Duration { micros: 0 },
            global_blocking_started: current_time,
            global_blocking_active: false,
            global_framework_start: current_time,
            mtu: 0,
            rng,
            sampler,
        };
        proof {
            let want = Ledger::started(all, max_padding_frac, max_blocking_frac, current_time, raws);
            assert(made@.actions =~= want.actions);
            assert(made@.runtime =~= want.runtime);
            assert forall|mi: int| 0 <= mi < all.len() implies (#[trigger] all[mi]).valid() by {
                lemma_machines_faultless(all, 0, mi);
            }
        }
        Ok(made)
    }

    /// What an event does to the machine at `mi`, after the accounting of
    /// the framework.
    fn step(&mut self, mi: usize, e: &TriggerEvent, blocked: Duration)
        requires
            old(self)@.wf(),
            old(self)@.has(mi as int),
        ensures
            final(self)@.wf(),
            exists|d: EventDraws| #[trigger]
                old(self)@.steps_to(final(self)@, mi as int, *e, blocked, d),
    {
        let ghost zero = Fixed { millionths: 0 };
        let ghost none = Draws { pick: 0, limit: zero, timeout: zero, duration: zero };
        let ghost before = self@;
        let reaches = match e {
            TriggerEvent::PaddingSent { machine, .. } => mi == machine.0,
            TriggerEvent::LimitReached { machine } => mi == machine.0,
            TriggerEvent::CounterZero { machine } => mi == machine.0,
            TriggerEvent::TimerBegin { machine } => mi == machine.0,
            TriggerEvent::TimerEnd { machine } => mi == machine.0,
            _ => true,
        };
        if !reaches {
            assert(before.steps_to(self@, mi as int, *e, blocked, (none, none)));
            return ;
        }
        let mut rt = self.runtime[mi];
        let mut n: u64 = 0;
        match e {
            TriggerEvent::NormalSent { bytes_sent } => {
                rt.nonpadding_sent = saturating_bytes(rt.nonpadding_sent, *bytes_sent);
                self.runtime.set(mi, rt);
                n = *bytes_sent as u64;
            },
            TriggerEvent::PaddingSent { bytes_sent, .. } => {
                rt.padding_sent = saturating_bytes(rt.padding_sent, *bytes_sent);
                self.runtime.set(mi, rt);
                n = *bytes_sent as u64;
            },
            TriggerEvent::BlockingEnd => {
                rt.blocking_duration = rt.blocking_duration.saturating_add(blocked);
                self.runtime.set(mi, rt);
            },
            TriggerEvent::NormalRecv { bytes_recv } => {
                n = *bytes_recv as u64;
            },
            TriggerEvent::PaddingRecv { bytes_recv } => {
                n = *bytes_recv as u64;
            },
            TriggerEvent::UpdateMTU { new_mtu } => {
                n = *new_mtu as u64;
            },
            _ => {},
        }
        let ghost counted = self@;
        let change = self.transition(mi, e.to_event(), n);
        let ghost moved = self@;
        let ghost d0 = choose|d: Draws| #[trigger]
            counted.transitions_to(moved, change, mi as int, e.kind(), n, d);
        let uses = match e {
            TriggerEvent::NormalSent { .. } => {
                let cs = self.runtime[mi].current_state;
                cs != STATE_END && self.machines[mi].states[cs].limit_includes_nonpadding
            },
            TriggerEvent::PaddingSent { .. } => true,
            TriggerEvent::BlockingBegin { machine } => mi == machine.0,
            _ => false,
        };
        if change == StateChange::Unchanged && uses {
            self.decrement_limit(mi);
            proof {
                let d1 = choose|d: Draws| #[trigger] moved.decrements_to(self@, mi as int, d);
                assert(before.steps_to(self@, mi as int, *e, blocked, (d0, d1)));
            }
        } else {
            assert(before.steps_to(self@, mi as int, *e, blocked, (d0, none)));
        }
    }

    /// What an event does: the accounting of the framework, then each
    /// machine in turn.
    fn process_event(&mut self, e: &TriggerEvent)
        requires
            old(self)@.wf(),
        ensures
            final(self)@.wf(),
            exists|ds: Seq<EventDraws>| #[trigger] old(self)@.processes_to(final(self)@, *e, ds),
    {
        let ghost before = self@;
        let mut blocked = Duration { micros: 0 };
        match e {
            TriggerEvent::NormalSent { bytes_sent } => {
                self.global_nonpadding_sent_bytes = saturating_bytes(
                    self.global_nonpadding_sent_bytes,
                    *bytes_sent,
                );
            },
            TriggerEvent::PaddingSent { bytes_sent, .. } => {
                self.global_padding_sent_bytes = saturating_bytes(
                    self.global_padding_sent_bytes,
                    *bytes_sent,
                );
            },
            TriggerEvent::BlockingBegin { .. } => {
                if !self.global_blocking_active {
                    self.global_blocking_active = true;
                    self.global_blocking_started = self.current_time;
                }
            },
            TriggerEvent::BlockingEnd => {
                if self.global_blocking_active {
                    blocked = self.current_time.duration_since(self.global_blocking_started);
                    self.global_blocking_duration = self.global_blocking_duration.saturating_add(
                        blocked,
                    );
                    self.global_blocking_active = false;
                }
            },
            TriggerEvent::UpdateMTU { new_mtu } => {
                self.mtu = *new_mtu;
            },
            _ => {},
        }
        let ghost counted = self@;
        let ghost mut ds: Seq<EventDraws> = Seq::empty();
        let n = self.machines.len();
        let mut mi: usize = 0;
        while mi < n
            invariant
                mi <= n,
                n == counted.machines.len(),
                counted.wf(),
                self@.wf(),
                self@.machines == counted.machines,
                ds.len() == mi,
                forall|i: int| 0 <= i < ds.len() ==> (#[trigger] ds[i]).0.pick < UNIT && ds[i].1.pick < UNIT,
                self@ == counted.run(*e, blocked, ds, mi as int),
            decreases n - mi,
        {
            let ghost here = self@;
            let ghost sofar = ds;
            self.step(mi, e, blocked);
            proof {
                let d = choose|d: EventDraws| #[trigger]
                    here.steps_to(self@, mi as int, *e, blocked, d);
                ds = sofar.push(d);
                counted.lemma_run_reads_prefix(*e, blocked, sofar, ds, mi as int);
            }
            mi = mi + 1;
        }
        assert(before.processes_to(self@, *e, ds));
    }

    /// Takes a batch of events that happened until `current_time`, in
    /// their order, and returns the actions that the embedder is to take:
    /// at most one for each machine, in the order of the machines. An
    /// action that an earlier event of the batch made pending is replaced
    /// by that of a later event. Whatever is drawn, the framework is
    /// afterwards what [`Ledger::trigger_events`] gives for the draws.
    pub fn trigger_events(&mut self, events: &[TriggerEvent], current_time: Instant) -> (r: Vec<
        TriggerAction,
    >)
        requires
            old(self)@.wf(),
        ensures
            final(self)@.wf(),
            exists|dss: Seq<Seq<EventDraws>>| #[trigger]
                old(self)@.triggers_to(final(self)@, events@, current_time, dss),
            r@ == final(self)@.emitted(),
            r@.len() <= final(self)@.machines.len(),
    {
        let ghost before = self@;
        let n = self.machines.len();
        let mut k: usize = 0;
        while k < n
            invariant
                k <= n,
                n == before.machines.len(),
                before.wf(),
                self@ == (Ledger { actions: self@.actions, ..before }),
                self@.actions.len() == n,
                forall|i: int| 0 <= i < k ==> (#[trigger] self@.actions[i]).is_none(),
            decreases n - k,
        {
            self.actions.set(k, None);
            k = k + 1;
        }
        self.current_time = current_time;
        let ghost start = self@;
        proof {
            assert(start.actions =~= before.cleared(current_time).actions);
        }
        let ghost mut dss: Seq<Seq<EventDraws>> = Seq::empty();
        let mut i: usize = 0;
        while i < events.len()
            invariant
                i <= events.len(),
                start.wf(),
                self@.wf(),
                self@.machines == start.machines,
                dss.len() == i,
                forall|j: int| 0 <= j < dss.len() ==> start.fair(#[trigger] dss[j]),
                self@ == start.process_events(events@, dss, i as int),
            decreases events.len() - i,
        {
            let ghost here = self@;
            let ghost sofar = dss;
            self.process_event(&events[i]);
            proof {
                let ds = choose|ds: Seq<EventDraws>| #[trigger]
                    here.processes_to(self@, events@[i as int], ds);
                dss = sofar.push(ds);
                start.lemma_events_read_prefix(events@, events@, sofar, dss, i as int);
                here.lemma_event_follows(events@[i as int], ds);
            }
            i = i + 1;
        }
        proof {
            assert(before.all_fair(events@, dss));
            assert(before.triggers_to(self@, events@, current_time, dss));
        }
        let mut out: Vec<TriggerAction> = Vec::new();
        let mut k: usize = 0;
        while k < n
            invariant
                k <= n,
                n == self@.actions.len(),
                out@ == self@.pending(k as int),
            decreases n - k,
        {
            match self.actions[k] {
                Some(a) => {
                    out.push(a);
                },
                None => {},
            }
            k = k + 1;
        }
        proof {
            self@.lemma_pending_is_short(n as int);
        }
        out
    }
}

} // verus!
