//! What a state does when a machine enters it, and what the framework asks
//! of the embedder.

use vstd::prelude::*;
use rand::rngs::StdRng;
use crate::constants::{
    MAX_SAMPLED_BLOCK_DURATION,
    MAX_SAMPLED_TIMEOUT,
    MAX_SAMPLED_TIMER_DURATION,
    STATE_LIMIT_MAX,
};
use crate::dist::{Dist, Sampler};
use crate::error::Error;
use crate::fixed::Fixed;
use crate::framework::MachineId;
use crate::time::Duration;

verus! {

/// The timers of a machine.
#[derive(Clone, Copy, Debug, PartialEq, Eq, Structural, Hash)]
pub enum Timer {
    /// The timer of a scheduled action.
    Action,
    /// The timer that the machine sets with `UpdateTimer`.
    Machine,
    /// Both timers.
    All,
}

/// The action of a state. All actions but `Cancel` can have a limit: how
/// often the action can be taken on repeated transitions to the state.
#[derive(Clone, Copy, Debug, PartialEq, Eq, Hash)]
pub enum Action {
    /// Cancel a timer.
    Cancel { timer: Timer },
    /// Send padding after a timeout. With `bypass` the padding must pass
    /// through blocking that can be bypassed; with `replace` a queued
    /// packet may be sent in its place.
    SendPadding { bypass: bool, replace: bool, timeout: Dist, limit: Option<Dist> },
    /// Block outgoing traffic for a duration, after a timeout. With
    /// `bypass` the blocking can be bypassed; with `replace` the duration
    /// replaces that of blocking already in place.
    BlockOutgoing { bypass: bool, replace: bool, timeout: Dist, duration: Dist, limit: Option<Dist> },
    /// Set the timer of the machine. With `replace` the duration replaces
    /// what is left of the timer.
    UpdateTimer { replace: bool, duration: Dist, limit: Option<Dist> },
}

/// What the embedder is asked to do for a machine.
#[derive(Clone, Copy, Debug, PartialEq, Eq, Hash)]
pub enum TriggerAction {
    /// Cancel a timer of the machine.
    Cancel { machine: MachineId, timer: Timer },
    /// Send padding after the timeout.
    SendPadding { timeout: Duration, bypass: bool, replace: bool, machine: MachineId },
    /// After the timeout, block outgoing traffic for the duration.
    BlockOutgoing {
        timeout: Duration,
        duration: Duration,
        bypass: bool,
        replace: bool,
        machine: MachineId,
    },
    /// Set the timer of the machine to the duration.
    UpdateTimer { duration: Duration, replace: bool, machine: MachineId },
}

impl TriggerAction {
    /// The machine that the action is for.
    pub open spec fn machine_of(self) -> MachineId {
        match self {
            TriggerAction::Cancel { machine, .. } => machine,
            TriggerAction::SendPadding { machine, .. } => machine,
            TriggerAction::BlockOutgoing { machine, .. } => machine,
            TriggerAction::UpdateTimer { machine, .. } => machine,
        }
    }

    /// The machine that the action is for.
    pub fn machine(&self) -> (r: MachineId)
        ensures
            r == self.machine_of(),
    {
        match self {
            TriggerAction::Cancel { machine, .. } => *machine,
            TriggerAction::SendPadding { machine, .. } => *machine,
            TriggerAction::BlockOutgoing { machine, .. } => *machine,
            TriggerAction::UpdateTimer { machine, .. } => *machine,
        }
    }
}

/// The whole microseconds of a sample, not more than `cap`.
pub open spec fn clamped_micros(sample: Fixed, cap: u64) -> u64 {
    if sample.trunc() > cap {
        cap
    } else {
        sample.trunc() as u64
    }
}

/// The whole microseconds of a sample, not more than `cap`.
fn clamp_micros(sample: Fixed, cap: u64) -> (r: u64)
    ensures
        r == clamped_micros(sample, cap),
{
    let whole = sample.to_whole();
    if whole > cap {
        cap
    } else {
        whole
    }
}

impl Action {
    /// The distribution of the timeout, for the actions that have one.
    pub open spec fn timeout_dist(self) -> Option<Dist> {
        match self {
            Action::SendPadding { timeout, .. } => Some(timeout),
            Action::BlockOutgoing { timeout, .. } => Some(timeout),
            _ => None,
        }
    }

    /// The distribution of the duration, for the actions that have one.
    pub open spec fn duration_dist(self) -> Option<Dist> {
        match self {
            Action::BlockOutgoing { duration, .. } => Some(duration),
            Action::UpdateTimer { duration, .. } => Some(duration),
            _ => None,
        }
    }

    /// The distribution of the limit, if the action declares one.
    pub open spec fn limit_dist(self) -> Option<Dist> {
        match self {
            Action::SendPadding { limit, .. } => limit,
            Action::BlockOutgoing { limit, .. } => limit,
            Action::UpdateTimer { limit, .. } => limit,
            _ => None,
        }
    }

    /// The upper clamp of the duration: that of blocking for
    /// `BlockOutgoing`, that of the timer otherwise.
    pub open spec fn duration_cap(self) -> u64 {
        match self {
            Action::BlockOutgoing { .. } => MAX_SAMPLED_BLOCK_DURATION,
            _ => MAX_SAMPLED_TIMER_DURATION,
        }
    }

    /// The timeout in microseconds that the draw `raw` gives, for the
    /// actions that have a timeout.
    pub open spec fn timeout_of(self, raw: Fixed) -> Option<u64> {
        match self.timeout_dist() {
            Some(d) => Some(clamped_micros(d.shaped(raw), MAX_SAMPLED_TIMEOUT)),
            None => None,
        }
    }

    /// The duration in microseconds that the draw `raw` gives, for the
    /// actions that have a duration.
    pub open spec fn duration_of(self, raw: Fixed) -> Option<u64> {
        match self.duration_dist() {
            Some(d) => Some(clamped_micros(d.shaped(raw), self.duration_cap())),
            None => None,
        }
    }

    /// The limit that the draw `raw` gives: the sample rounded to the
    /// nearest whole number, and the largest limit there is for an action
    /// that declares no limit.
    pub open spec fn limit_of(self, raw: Fixed) -> u64 {
        match self.limit_dist() {
            Some(d) => if d.shaped(raw).round() > STATE_LIMIT_MAX {
                STATE_LIMIT_MAX
            } else {
                d.shaped(raw).round() as u64
            },
            None => STATE_LIMIT_MAX,
        }
    }

    /// Whether all distributions of the action are valid.
    pub open spec fn valid(self) -> bool {
        &&& self.timeout_dist().is_some() ==> self.timeout_dist().unwrap().valid()
        &&& self.duration_dist().is_some() ==> self.duration_dist().unwrap().valid()
        &&& self.limit_dist().is_some() ==> self.limit_dist().unwrap().valid()
    }

    /// Draws a timeout in microseconds, for `SendPadding` and
    /// `BlockOutgoing`; other actions have none.
    pub fn sample_timeout<S: Sampler>(&self, sampler: &mut S, rng: &mut StdRng) -> (r: Option<u64>)
        ensures
            exists|raw: Fixed| r == self.timeout_of(raw),
    {
        match self {
            Action::SendPadding { timeout, .. } | Action::BlockOutgoing { timeout, .. } => {
                let s = timeout.sample(sampler, rng);
                proof {
                    let raw = choose|raw: Fixed| s == timeout.shaped(raw);
                    assert(Some(clamped_micros(s, MAX_SAMPLED_TIMEOUT)) == self.timeout_of(raw));
                }
                Some(clamp_micros(s, MAX_SAMPLED_TIMEOUT))
            },
            _ => {
                assert(self.timeout_of(Fixed { millionths: 0 }).is_none());
                None
            },
        }
    }

    /// Draws a duration in microseconds, for `BlockOutgoing` and
    /// `UpdateTimer`; other actions have none.
    pub fn sample_duration<S: Sampler>(&self, sampler: &mut S, rng: &mut StdRng) -> (r: Option<u64>)
        ensures
            exists|raw: Fixed| r == self.duration_of(raw),
    {
        match self {
            Action::BlockOutgoing { duration, .. } => {
                let s = duration.sample(sampler, rng);
                proof {
                    let raw = choose|raw: Fixed| s == duration.shaped(raw);
                    assert(Some(clamped_micros(s, MAX_SAMPLED_BLOCK_DURATION)) == self.duration_of(
                        raw,
                    ));
                }
                Some(clamp_micros(s, MAX_SAMPLED_BLOCK_DURATION))
            },
            Action::UpdateTimer { duration, .. } => {
                let s = duration.sample(sampler, rng);
                proof {
                    let raw = choose|raw: Fixed| s == duration.shaped(raw);
                    assert(Some(clamped_micros(s, MAX_SAMPLED_TIMER_DURATION)) == self.duration_of(
                        raw,
                    ));
                }
                Some(clamp_micros(s, MAX_SAMPLED_TIMER_DURATION))
            },
            _ => {
                assert(self.duration_of(Fixed { millionths: 0 }).is_none());
                None
            },
        }
    }

    /// Draws a limit.
    pub fn sample_limit<S: Sampler>(&self, sampler: &mut S, rng: &mut StdRng) -> (r: u64)
        ensures
            exists|raw: Fixed| r == self.limit_of(raw),
            !self.has_limit_dist() ==> r == STATE_LIMIT_MAX,
    {
        match self {
            Action::SendPadding { limit, .. }
            | Action::BlockOutgoing { limit, .. }
            | Action::UpdateTimer { limit, .. } => {
                match limit {
                    None => {
                        assert(self.limit_of(Fixed { millionths: 0 }) == STATE_LIMIT_MAX);
                        STATE_LIMIT_MAX
                    },
                    Some(d) => {
                        let s = d.sample(sampler, rng);
                        proof {
                            let raw = choose|raw: Fixed| s == d.shaped(raw);
                            assert(s.round() as u64 == self.limit_of(raw));
                        }
                        s.to_nearest()
                    },
                }
            },
            _ => {
                assert(self.limit_of(Fixed { millionths: 0 }) == STATE_LIMIT_MAX);
                STATE_LIMIT_MAX
            },
        }
    }

    /// Whether the action declares a limit.
    pub open spec fn has_limit_dist(self) -> bool {
        self.limit_dist().is_some()
    }

    /// Whether the action declares a limit.
    pub fn has_limit(&self) -> (r: bool)
        ensures
            r == self.has_limit_dist(),
    {
        match self {
            Action::SendPadding { limit, .. }
            | Action::BlockOutgoing { limit, .. }
            | Action::UpdateTimer { limit, .. } => limit.is_some(),
            _ => false,
        }
    }

    /// Checks all distributions of the action.
    pub fn validate(&self) -> (r: Result<(), Error>)
        ensures
            self.valid() ==> r == Ok::<(), Error>(()),
            !self.valid() ==> r == Err::<(), Error>(Error::Distribution),
    {
        match self {
            Action::SendPadding { timeout, limit, .. } => {
                if timeout.validate().is_err() {
                    return Err(Error::Distribution);
                }
                match limit {
                    Some(l) => l.validate(),
                    None => Ok(()),
                }
            },
            Action::BlockOutgoing { timeout, duration, limit, .. } => {
                if timeout.validate().is_err() {
                    return Err(Error::Distribution);
                }
                if duration.validate().is_err() {
                    return Err(Error::Distribution);
                }
                match limit {
                    Some(l) => l.validate(),
                    None => Ok(()),
                }
            },
            Action::UpdateTimer { duration, limit, .. } => {
                if duration.validate().is_err() {
                    return Err(Error::Distribution);
                }
                match limit {
                    Some(l) => l.validate(),
                    None => Ok(()),
                }
            },
            Action::Cancel { .. } => Ok(()),
        }
    }
}

} // verus!
