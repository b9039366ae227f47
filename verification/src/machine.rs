//! A machine: one or more states, and the limits on the padding and the
//! blocking that the machine may cause.

use vstd::prelude::*;
use crate::constants::STATE_MAX;
use crate::error::{Error, MachineFault};
use crate::event::Event;
use crate::fixed::Fixed;
use crate::state::{State, target_ok};

verus! {

/// A probabilistic state machine that decides when to send padding and
/// when to block outgoing traffic.
#[derive(Clone, Debug)]
pub struct Machine {
    /// The padding bytes that the machine may cause before the limits on
    /// the fraction of padding apply.
    pub allowed_padding_bytes: u64,
    /// The largest fraction of padding bytes among all bytes sent, once
    /// the allowed padding bytes are used up. Zero: no limit.
    pub max_padding_frac: Fixed,
    /// The microseconds of blocking that the machine may cause before the
    /// limits on the fraction of blocking apply.
    pub allowed_blocked_microsec: u64,
    /// The largest fraction of time spent blocking, once the allowed
    /// blocking is used up. Zero: no limit.
    pub max_blocking_frac: Fixed,
    /// The states. The machine starts in the first.
    pub states: Vec<State>,
    /// Whether events of small packets drive the machine.
    pub include_small_packets: bool,
}

impl Machine {
    /// The first fault of the states from place `from` on.
    pub open spec fn states_fault_from(&self, from: int) -> Option<MachineFault>
        decreases self.states@.len() - from,
    {
        if from < 0 || from >= self.states@.len() {
            None
        } else {
            match self.states@[from].fault(self.states@.len() as usize) {
                Some(f) => Some(f),
                None => self.states_fault_from(from + 1),
            }
        }
    }

    /// What is wrong with the machine, if anything: a fraction that is
    /// not in `[0, 1]`, of padding first; no state or too many; or the
    /// first fault of its states.
    pub open spec fn fault(&self) -> Option<Error> {
        if !self.max_padding_frac.is_fraction() {
            Some(Error::PaddingLimit)
        } else if !self.max_blocking_frac.is_fraction() {
            Some(Error::BlockingLimit)
        } else if self.states@.len() == 0 {
            Some(Error::Machine(MachineFault::NoStates))
        } else if self.states@.len() > STATE_MAX {
            Some(Error::Machine(MachineFault::TooManyStates))
        } else {
            match self.states_fault_from(0) {
                Some(f) => Some(Error::Machine(f)),
                None => None,
            }
        }
    }

    /// Whether nothing is wrong with the machine.
    pub open spec fn valid(&self) -> bool {
        self.fault().is_none()
    }

    /// A valid machine has at least one state and `STATE_MAX` at most, its
    /// fractions are in `[0, 1]`, and each state is valid: whatever is
    /// picked in a state is a state of the machine or a pseudo-state.
    pub proof fn law_valid_machine(&self, i: int)
        requires
            self.valid(),
            0 <= i < self.states@.len(),
        ensures
            0 < self.states@.len() <= STATE_MAX,
            self.max_padding_frac.is_fraction(),
            self.max_blocking_frac.is_fraction(),
            self.states@[i].valid(self.states@.len() as usize),
            forall|e: Event, draw: u32|
                (#[trigger] self.states@[i].picked(e, draw)).is_some() ==> target_ok(
                    self.states@[i].picked(e, draw).unwrap(),
                    self.states@.len() as usize,
                ),
    {
        self.lemma_states_faultless(0, i);
        assert forall|e: Event, draw: u32|
            (#[trigger] self.states@[i].picked(e, draw)).is_some() implies target_ok(
            self.states@[i].picked(e, draw).unwrap(),
            self.states@.len() as usize,
        ) by {
            self.states@[i].lemma_valid_targets(self.states@.len() as usize, e, draw);
        }
    }

    proof fn lemma_states_faultless(&self, from: int, i: int)
        requires
            0 <= from <= i < self.states@.len(),
            self.states_fault_from(from).is_none(),
        ensures
            self.states@[i].fault(self.states@.len() as usize).is_none(),
        decreases self.states@.len() - from,
    {
        if from < i {
            self.lemma_states_faultless(from + 1, i);
        }
    }

    /// A machine with the given limits and states that counts small
    /// packets, or what is wrong with it.
    pub fn new(
        allowed_padding_bytes: u64,
        max_padding_frac: Fixed,
        allowed_blocked_microsec: u64,
        max_blocking_frac: Fixed,
        states: Vec<State>,
    ) -> (r: Result<Machine, Error>)
        ensures
            ({
                let made = Machine {
                    allowed_padding_bytes,
                    max_padding_frac,
                    allowed_blocked_microsec,
                    max_blocking_frac,
                    states,
                    include_small_packets: true,
                };
                match made.fault() {
                    Some(e) => r == Err::<Machine, Error>(e),
                    None => r == Ok::<Machine, Error>(made),
                }
            }),
    {
        let machine = Machine {
            allowed_padding_bytes,
            max_padding_frac,
            allowed_blocked_microsec,
            max_blocking_frac,
            states,
            include_small_packets: true,
        };
        match machine.validate() {
            Ok(()) => Ok(machine),
            Err(e) => Err(e),
        }
    }

    /// Checks the limits, the number of states, and each state in turn.
    /// The first fault found is returned.
    pub fn validate(&self) -> (r: Result<(), Error>)
        ensures
            r == match self.fault() {
                Some(e) => Err::<(), Error>(e),
                None => Ok::<(), Error>(()),
            },
    {
        if !self.max_padding_frac.in_unit_interval() {
            return Err(Error::PaddingLimit);
        }
        if !self.max_blocking_frac.in_unit_interval() {
            return Err(Error::BlockingLimit);
        }
        let num_states = self.states.len();
        if num_states == 0 {
            return Err(Error::Machine(MachineFault::NoStates));
        }
        if num_states > STATE_MAX {
            return Err(Error::Machine(MachineFault::TooManyStates));
        }
        let mut k: usize = 0;
        while k < num_states
            invariant
                k <= num_states,
                num_states == self.states@.len(),
                0 < num_states <= STATE_MAX,
                self.max_padding_frac.is_fraction(),
                self.max_blocking_frac.is_fraction(),
                self.states_fault_from(0) == self.states_fault_from(k as int),
            decreases num_states - k,
        {
            match self.states[k].validate(num_states) {
                Ok(()) => {},
                Err(e) => {
                    return Err(e);
                },
            }
            k = k + 1;
        }
        Ok(())
    }
}

} // verus!
