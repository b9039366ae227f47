//! What can go wrong when a machine or a framework is built.

use vstd::prelude::*;
use vstd::string::StringExecFns;

verus! {

/// Why a machine is not valid.
#[derive(Clone, Copy, Debug, PartialEq, Eq, Structural, Hash)]
pub enum MachineFault {
    /// The machine has no state.
    NoStates,
    /// The machine has more than `STATE_MAX` states.
    TooManyStates,
    /// A transition leads to a state that is neither a state of the machine
    /// nor a pseudo-state.
    BadTarget,
    /// Two transitions on one event lead to the same state.
    DuplicateTarget,
    /// A transition probability is not in `(0, 1]`.
    BadProbability,
    /// The probabilities of the transitions on one event do not sum to a
    /// value in `(0, 1]`.
    BadProbabilitySum,
    /// A distribution of an action or of a counter update is not valid.
    BadDistribution,
}

/// The errors of this library.
#[derive(Clone, Copy, Debug, PartialEq, Eq, Structural, Hash)]
pub enum Error {
    /// A padding fraction is not in `[0, 1]`.
    PaddingLimit,
    /// A blocking fraction is not in `[0, 1]`.
    BlockingLimit,
    /// A machine is not valid; the fault says why.
    Machine(MachineFault),
    /// A distribution has an inverted range or a negative deviation.
    Distribution,
    /// A serialized machine is too short, of another version, or otherwise
    /// not in the expected form.
    Serialization,
}

impl MachineFault {
    /// A sentence that describes the fault.
    pub fn message(&self) -> (r: &'static str)
        ensures
            r@ == self.text(),
    {
        match self {
            MachineFault::NoStates => "a machine must have at least one state",
            MachineFault::TooManyStates => "too many states",
            MachineFault::BadTarget => "found invalid state index",
            MachineFault::DuplicateTarget => "found duplicate state index",
            MachineFault::BadProbability => "found probability that is not in (0.0, 1.0]",
            MachineFault::BadProbabilitySum => "found total probability that is not in (0.0, 1.0]",
            MachineFault::BadDistribution => "found invalid distribution",
        }
    }

    /// The sentence of each fault.
    pub open spec fn text(self) -> Seq<char> {
        match self {
            MachineFault::NoStates => "a machine must have at least one state"@,
            MachineFault::TooManyStates => "too many states"@,
            MachineFault::BadTarget => "found invalid state index"@,
            MachineFault::DuplicateTarget => "found duplicate state index"@,
            MachineFault::BadProbability => "found probability that is not in (0.0, 1.0]"@,
            MachineFault::BadProbabilitySum => "found total probability that is not in (0.0, 1.0]"@,
            MachineFault::BadDistribution => "found invalid distribution"@,
        }
    }
}

impl Error {
    /// A sentence that describes the error.
    pub fn message(&self) -> (r: String)
        ensures
            r@ == self.text(),
    {
        match self {
            Error::PaddingLimit => String::from_str(
                "max_padding_frac has to be between [0.0, 1.0]",
            ),
            Error::BlockingLimit => String::from_str(
                "max_blocking_frac has to be between [0.0, 1.0]",
            ),
            Error::Machine(fault) => String::from_str("invalid machine: ").concat(fault.message()),
            Error::Distribution => String::from_str("invalid distribution"),
            Error::Serialization => String::from_str("invalid serialized machine"),
        }
    }

    /// The sentence of each error.
    pub open spec fn text(self) -> Seq<char> {
        match self {
            Error::PaddingLimit => "max_padding_frac has to be between [0.0, 1.0]"@,
            Error::BlockingLimit => "max_blocking_frac has to be between [0.0, 1.0]"@,
            Error::Machine(fault) => "invalid machine: "@ + fault.text(),
            Error::Distribution => "invalid distribution"@,
            Error::Serialization => "invalid serialized machine"@,
        }
    }
}

} // verus!
