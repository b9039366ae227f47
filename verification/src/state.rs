//! A state of a machine: an optional action, an optional counter update,
//! and for each kind of event the transitions that the event may cause.

use vstd::prelude::*;
use rand::rngs::StdRng;
use std::collections::HashSet;
use crate::action::Action;
use crate::constants::{EVENT_NUM, STATE_CANCEL, STATE_END};
use crate::dist::Dist;
use crate::error::{Error, MachineFault};
use crate::event::Event;
use crate::fixed::{Fixed, UNIT};
use crate::rng::draw_below;

verus! {

/// A transition: the state it leads to and its probability.
#[derive(Clone, Copy, Debug, PartialEq, Eq, Hash)]
pub struct Trans(pub usize, pub Fixed);

/// The counters of a machine.
#[derive(Clone, Copy, Debug, PartialEq, Eq, Structural, Hash)]
pub enum Counter {
    /// The first counter.
    A,
    /// The second counter.
    B,
}

/// What a counter update does to the counter.
#[derive(Clone, Copy, Debug, PartialEq, Eq, Structural, Hash)]
pub enum Operation {
    /// Add the value.
    Increment,
    /// Take the value away.
    Decrement,
    /// Put the value in its place.
    Assign,
}

/// An update of a counter on the transition into a state.
#[derive(Clone, Copy, Debug, PartialEq, Eq, Hash)]
pub struct CounterUpdate {
    /// Which counter.
    pub counter: Counter,
    /// What to do with it.
    pub operation: Operation,
    /// The distribution of the value; without one the value is one.
    pub value: Option<Dist>,
}

impl CounterUpdate {
    /// Whether the distribution of the value, if there is one, is valid.
    pub open spec fn valid(self) -> bool {
        self.value.is_some() ==> self.value.unwrap().valid()
    }

    /// Checks the distribution of the value.
    pub fn validate(&self) -> (r: Result<(), Error>)
        ensures
            self.valid() ==> r == Ok::<(), Error>(()),
            !self.valid() ==> r == Err::<(), Error>(Error::Distribution),
    {
        match self.value {
            Some(d) => d.validate(),
            None => Ok(()),
        }
    }
}

/// Whether a transition may lead to `target`: to a state of a machine with
/// `num_states` states, or to a pseudo-state.
pub open spec fn target_ok(target: usize, num_states: usize) -> bool {
    target < num_states || target == STATE_CANCEL || target == STATE_END
}

/// Whether the target of the transition at place `i` is the target of a
/// transition before it.
pub open spec fn seen_before(v: Seq<Trans>, i: int) -> bool {
    exists|j: int| 0 <= j < i && (#[trigger] v[j]).0 == v[i].0
}

/// The sum of the probabilities of the first `k` transitions, in
/// millionths.
pub open spec fn cumulative(v: Seq<Trans>, k: int) -> int
    decreases k,
{
    if k <= 0 {
        0
    } else {
        cumulative(v, k - 1) + v[k - 1].1.millionths
    }
}

/// What is wrong with the transition at place `i`, if anything: its
/// target, then a repeated target, then its probability.
pub open spec fn trans_fault(v: Seq<Trans>, i: int, num_states: usize) -> Option<MachineFault> {
    if !target_ok(v[i].0, num_states) {
        Some(MachineFault::BadTarget)
    } else if seen_before(v, i) {
        Some(MachineFault::DuplicateTarget)
    } else if !(0 < v[i].1.millionths <= UNIT) {
        Some(MachineFault::BadProbability)
    } else {
        None
    }
}

/// The first fault of the transitions from place `from` on; if none of
/// them has a fault, whether the probabilities of a vector that is not
/// empty sum to more than one.
pub open spec fn vector_fault_from(v: Seq<Trans>, from: int, num_states: usize) -> Option<
    MachineFault,
>
    decreases v.len() - from,
{
    if from < 0 || from >= v.len() {
        if cumulative(v, v.len() as int) > UNIT {
            Some(MachineFault::BadProbabilitySum)
        } else {
            None
        }
    } else {
        match trans_fault(v, from, num_states) {
            Some(f) => Some(f),
            None => vector_fault_from(v, from + 1, num_states),
        }
    }
}

/// The first fault of a vector of transitions.
pub open spec fn vector_fault(v: Seq<Trans>, num_states: usize) -> Option<MachineFault> {
    vector_fault_from(v, 0, num_states)
}

/// The target that the draw picks among the transitions from place `from`
/// on: that of the first transition at which the sum of the probabilities
/// so far is more than the draw.
pub open spec fn pick_from(v: Seq<Trans>, draw: int, from: int) -> Option<usize>
    decreases v.len() - from,
{
    if from < 0 || from >= v.len() {
        None
    } else if draw < cumulative(v, from + 1) {
        Some(v[from].0)
    } else {
        pick_from(v, draw, from + 1)
    }
}

/// A vector of transitions without a fault leads to states of the machine
/// and to pseudo-states only, never twice to the same, each with a
/// probability in `(0, 1]`, and the probabilities sum to one at most.
pub proof fn lemma_faultless_vector(v: Seq<Trans>, num_states: usize)
    requires
        vector_fault(v, num_states).is_none(),
    ensures
        forall|i: int| 0 <= i < v.len() ==> target_ok((#[trigger] v[i]).0, num_states),
        forall|i: int| 0 <= i < v.len() ==> 0 < (#[trigger] v[i]).1.millionths <= UNIT,
        forall|i: int, j: int| 0 <= j < i < v.len() ==> (#[trigger] v[j]).0 != (#[trigger] v[i]).0,
        cumulative(v, v.len() as int) <= UNIT,
{
    lemma_faultless_from(v, 0, num_states);
    assert forall|i: int| 0 <= i < v.len() implies target_ok((#[trigger] v[i]).0, num_states) && 0
        < v[i].1.millionths <= UNIT by {
        assert(trans_fault(v, i, num_states).is_none());
    }
    assert forall|i: int, j: int| 0 <= j < i < v.len() implies (#[trigger] v[j]).0 != (
    #[trigger] v[i]).0 by {
        assert(trans_fault(v, i, num_states).is_none());
    }
}

proof fn lemma_faultless_from(v: Seq<Trans>, from: int, num_states: usize)
    requires
        0 <= from,
        vector_fault_from(v, from, num_states).is_none(),
    ensures
        forall|i: int| from <= i < v.len() ==> (#[trigger] trans_fault(v, i, num_states)).is_none(),
        cumulative(v, v.len() as int) <= UNIT,
    decreases v.len() - from,
{
    if from < v.len() {
        lemma_faultless_from(v, from + 1, num_states);
    }
}

/// A vector that leads to states of the machine and to pseudo-states
/// only, never twice to the same, each with a probability in `(0, 1]`,
/// with probabilities that sum to one at most, has no fault.
pub proof fn law_vector_without_fault(v: Seq<Trans>, num_states: usize)
    requires
        forall|i: int| 0 <= i < v.len() ==> target_ok((#[trigger] v[i]).0, num_states),
        forall|i: int| 0 <= i < v.len() ==> 0 < (#[trigger] v[i]).1.millionths <= UNIT,
        forall|i: int, j: int| 0 <= j < i < v.len() ==> (#[trigger] v[j]).0 != (#[trigger] v[i]).0,
        cumulative(v, v.len() as int) <= UNIT,
    ensures
        vector_fault(v, num_states).is_none(),
{
    lemma_without_fault_from(v, 0, num_states);
}

proof fn lemma_without_fault_from(v: Seq<Trans>, from: int, num_states: usize)
    requires
        0 <= from,
        forall|i: int| 0 <= i < v.len() ==> target_ok((#[trigger] v[i]).0, num_states),
        forall|i: int| 0 <= i < v.len() ==> 0 < (#[trigger] v[i]).1.millionths <= UNIT,
        forall|i: int, j: int| 0 <= j < i < v.len() ==> (#[trigger] v[j]).0 != (#[trigger] v[i]).0,
        cumulative(v, v.len() as int) <= UNIT,
    ensures
        vector_fault_from(v, from, num_states).is_none(),
    decreases v.len() - from,
{
    if from < v.len() {
        lemma_without_fault_from(v, from + 1, num_states);
    }
}

/// The vector that a list of events with their transitions gives for the
/// event `e`: the last one listed for `e` that is not empty; an empty one
/// if there is none.
pub open spec fn assembled(t: Seq<(Event, Vec<Trans>)>, e: Event) -> Seq<Trans>
    decreases t.len(),
{
    if t.len() == 0 {
        Seq::empty()
    } else if t.last().0 == e && t.last().1@.len() > 0 {
        t.last().1@
    } else {
        assembled(t.drop_last(), e)
    }
}

/// A state of a machine.
#[derive(Clone, Debug)]
pub struct State {
    /// The action that is taken when the machine enters the state.
    pub action: Option<Action>,
    /// The counter update that is made when the machine enters the state.
    pub counter: Option<CounterUpdate>,
    /// Whether non-padding packets that are sent while the machine stays
    /// in the state count against the limit of the state.
    pub limit_includes_nonpadding: bool,
    /// For each kind of event, at its place in the declared order, the
    /// transitions on that event. A kind of event without a place has no
    /// transitions.
    pub transitions: Vec<Vec<Trans>>,
}

impl State {
    /// The transitions on the event at place `i` of the declared order.
    pub open spec fn on_index(&self, i: int) -> Seq<Trans> {
        if 0 <= i < self.transitions@.len() {
            self.transitions@[i]@
        } else {
            Seq::empty()
        }
    }

    /// The transitions on an event, in the order in which they were given.
    pub open spec fn on(&self, e: Event) -> Seq<Trans> {
        self.on_index(e.index())
    }

    /// The state that the draw picks on an event, if any. The draw is a
    /// number of millionths from zero up to, and without, one.
    pub open spec fn picked(&self, e: Event, draw: u32) -> Option<usize> {
        pick_from(self.on(e), draw as int, 0)
    }

    /// The first fault of the transitions on the events from place `from`
    /// of the declared order on.
    pub open spec fn events_fault_from(&self, from: int, num_states: usize) -> Option<MachineFault>
        decreases EVENT_NUM - from,
    {
        if from < 0 || from >= EVENT_NUM {
            None
        } else {
            match vector_fault(self.on_index(from), num_states) {
                Some(f) => Some(f),
                None => self.events_fault_from(from + 1, num_states),
            }
        }
    }

    /// The first fault of the state as part of a machine with `num_states`
    /// states: of its transitions, event by event in the declared order;
    /// then of the distributions of its action and of its counter update.
    pub open spec fn fault(&self, num_states: usize) -> Option<MachineFault> {
        match self.events_fault_from(0, num_states) {
            Some(f) => Some(f),
            None => if self.action.is_some() && !self.action.unwrap().valid() {
                Some(MachineFault::BadDistribution)
            } else if self.counter.is_some() && !self.counter.unwrap().valid() {
                Some(MachineFault::BadDistribution)
            } else {
                None
            },
        }
    }

    /// Whether the state has no fault.
    pub open spec fn valid(&self, num_states: usize) -> bool {
        self.fault(num_states).is_none()
    }

    /// In a state without a fault every transition leads to a state of the
    /// machine or to a pseudo-state, and so does every pick.
    pub proof fn lemma_valid_targets(&self, num_states: usize, e: Event, draw: u32)
        requires
            self.valid(num_states),
        ensures
            vector_fault(self.on(e), num_states).is_none(),
            forall|i: int|
                0 <= i < self.on(e).len() ==> target_ok((#[trigger] self.on(e)[i]).0, num_states),
            self.picked(e, draw).is_some() ==> target_ok(self.picked(e, draw).unwrap(), num_states),
    {
        self.lemma_events_faultless(0, num_states, e.index());
        lemma_faultless_vector(self.on(e), num_states);
        lemma_pick_is_target(self.on(e), draw as int, 0);
    }

    proof fn lemma_events_faultless(&self, from: int, num_states: usize, i: int)
        requires
            0 <= from <= i < EVENT_NUM,
            self.events_fault_from(from, num_states).is_none(),
        ensures
            vector_fault(self.on_index(i), num_states).is_none(),
        decreases EVENT_NUM - from,
    {
        if from < i {
            self.lemma_events_faultless(from + 1, num_states, i);
        }
    }

    /// A state with the transitions that `t` lists, without an action or a
    /// counter update. Of the vectors that `t` lists for one event the
    /// last one that is not empty counts.
    pub fn new(t: Vec<(Event, Vec<Trans>)>) -> (r: State)
        ensures
            forall|e: Event| #[trigger] r.on(e) == assembled(t@, e),
            r.action.is_none(),
            r.counter.is_none(),
            !r.limit_includes_nonpadding,
    {
        let mut t = t;
        let mut transitions: Vec<Vec<Trans>> = Vec::new();
        let mut k: usize = 0;
        while k < EVENT_NUM
            invariant
                k <= EVENT_NUM,
                transitions@.len() == k,
                forall|i: int| 0 <= i < k ==> (#[trigger] transitions@[i])@.len() == 0,
            decreases EVENT_NUM - k,
        {
            transitions.push(Vec::new());
            k = k + 1;
        }
        let ghost all = t@;
        while t.len() > 0
            invariant
                transitions@.len() == EVENT_NUM,
                t@.len() <= all.len(),
                t@ == all.subrange(0, t@.len() as int),
                forall|e: Event|
                    assembled(all, e) == if (#[trigger] transitions@[e.index()])@.len() > 0 {
                        transitions@[e.index()]@
                    } else {
                        assembled(t@, e)
                    },
            decreases t.len(),
        {
            let last = t.pop();
            match last {
                Some((event, vector)) => {
                    let idx = event.to_usize();
                    if vector.len() > 0 && transitions[idx].len() == 0 {
                        transitions.set(idx, vector);
                    }
                },
                None => {},
            }
        }
        State { action: None, counter: None, limit_includes_nonpadding: false, transitions }
    }

    /// The transitions on an event.
    pub fn transitions_on(&self, e: Event) -> (r: Option<&Vec<Trans>>)
        ensures
            match r {
                Some(v) => v@ == self.on(e),
                None => self.on(e).len() == 0,
            },
    {
        let idx = e.to_usize();
        if idx < self.transitions.len() {
            Some(&self.transitions[idx])
        } else {
            None
        }
    }

    /// Checks the state as part of a machine with `num_states` states: its
    /// transitions, event by event in the declared order, and the
    /// distributions of its action and its counter update. The first fault
    /// found is returned.
    pub fn validate(&self, num_states: usize) -> (r: Result<(), Error>)
        ensures
            r == match self.fault(num_states) {
                Some(f) => Err::<(), Error>(Error::Machine(f)),
                None => Ok::<(), Error>(()),
            },
    {
        let mut k: usize = 0;
        while k < EVENT_NUM
            invariant
                k <= EVENT_NUM,
                self.events_fault_from(0, num_states) == self.events_fault_from(
                    k as int,
                    num_states,
                ),
            decreases EVENT_NUM - k,
        {
            if k < self.transitions.len() {
                match check_vector(&self.transitions[k], num_states) {
                    Some(f) => {
                        return Err(Error::Machine(f));
                    },
                    None => {},
                }
            }
            k = k + 1;
        }
        if let Some(action) = &self.action {
            if action.validate().is_err() {
                return Err(Error::Machine(MachineFault::BadDistribution));
            }
        }
        if let Some(counter) = &self.counter {
            if counter.validate().is_err() {
                return Err(Error::Machine(MachineFault::BadDistribution));
            }
        }
        Ok(())
    }

    /// The state that the draw picks on an event, if any: the target of
    /// the first transition at which the sum of the probabilities so far
    /// is more than the draw.
    pub fn pick(&self, event: Event, draw: u32) -> (r: Option<usize>)
        ensures
            r == self.picked(event, draw),
    {
        match self.transitions_on(event) {
            None => None,
            Some(vector) => {
                let mut sum: i128 = 0;
                let mut k: usize = 0;
                while k < vector.len()
                    invariant
                        k <= vector.len(),
                        vector@ == self.on(event),
                        sum == cumulative(vector@, k as int),
                        -(k as int) * 0x8000_0000_0000_0000 <= sum <= draw,
                        pick_from(vector@, draw as int, 0) == pick_from(
                            vector@,
                            draw as int,
                            k as int,
                        ),
                    decreases vector.len() - k,
                {
                    let t = vector[k];
                    sum = sum + t.1.millionths as i128;
                    if (draw as i128) < sum {
                        return Some(t.0);
                    }
                    k = k + 1;
                }
                None
            },
        }
    }

    /// Draws the state to go to on an event, if any. Whatever is drawn,
    /// the result is what [`State::pick`] gives for a number of millionths
    /// below one.
    pub fn sample_state(&self, event: Event, rng: &mut StdRng) -> (r: Option<usize>)
        ensures
            exists|draw: u32| draw < UNIT && r == self.picked(event, draw),
    {
        let draw = draw_below(rng, 1_000_000);
        self.pick(event, draw)
    }
}

/// What a pick returns is the target of one of the transitions.
pub proof fn lemma_pick_is_target(v: Seq<Trans>, draw: int, from: int)
    requires
        0 <= from,
    ensures
        pick_from(v, draw, from).is_some() ==> exists|i: int|
            from <= i < v.len() && (#[trigger] v[i]).0 == pick_from(v, draw, from).unwrap(),
    decreases v.len() - from,
{
    if from < v.len() && draw >= cumulative(v, from + 1) {
        lemma_pick_is_target(v, draw, from + 1);
    }
}

/// The first fault of a vector of transitions, if it has one.
fn check_vector(vector: &Vec<Trans>, num_states: usize) -> (r: Option<MachineFault>)
    ensures
        r == vector_fault(vector@, num_states),
{
    broadcast use vstd::std_specs::hash::group_hash_axioms;

    let mut sum: i128 = 0;
    let mut seen: HashSet<usize> = HashSet::new();
    let mut k: usize = 0;
    while k < vector.len()
        invariant
            k <= vector.len(),
            sum == cumulative(vector@, k as int),
            0 <= sum <= k * UNIT,
            vector_fault(vector@, num_states) == vector_fault_from(vector@, k as int, num_states),
            forall|t: usize|
                seen@.contains(t) <==> exists|j: int| 0 <= j < k && (#[trigger] vector@[j]).0 == t,
        decreases vector.len() - k,
    {
        let t = vector[k];
        if t.0 >= num_states && t.0 != STATE_CANCEL && t.0 != STATE_END {
            return Some(MachineFault::BadTarget);
        }
        if seen.contains(&t.0) {
            return Some(MachineFault::DuplicateTarget);
        }
        seen.insert(t.0);
        if t.1.millionths <= 0 || t.1.millionths > UNIT {
            return Some(MachineFault::BadProbability);
        }
        sum = sum + t.1.millionths as i128;
        k = k + 1;
    }
    if sum > UNIT as i128 {
        Some(MachineFault::BadProbabilitySum)
    } else {
        None
    }
}

} // verus!
