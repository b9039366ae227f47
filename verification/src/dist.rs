//! Distributions that a machine draws timeouts, durations and limits from.
//!
//! The library holds the parameters of a distribution and the rules that
//! shape a draw. The draw itself is made by a [`Sampler`] that the
//! embedder supplies.

use vstd::prelude::*;
use rand::rngs::StdRng;
use crate::error::Error;
use crate::fixed::Fixed;

verus! {

/// A family of distributions with its parameters.
#[derive(Clone, Copy, Debug, PartialEq, Eq, Hash)]
pub enum DistType {
    /// Uniform between `low` and `high`, both included.
    Uniform { low: Fixed, high: Fixed },
    /// Normal with a mean and a standard deviation.
    Normal { mean: Fixed, stdev: Fixed },
    /// Log-normal: the logarithm is normal with mean `mu` and standard
    /// deviation `sigma`.
    LogNormal { mu: Fixed, sigma: Fixed },
    /// Poisson with rate `lambda`.
    Poisson { lambda: Fixed },
}

/// A distribution with a value added to each draw and an upper clamp.
#[derive(Clone, Copy, Debug, PartialEq, Eq, Hash)]
pub struct Dist {
    /// The family and its parameters.
    pub dist: DistType,
    /// Added to each draw.
    pub start: Fixed,
    /// The largest value of a sample if it is more than zero; no clamp
    /// otherwise.
    pub max: Fixed,
}

/// Makes the draws. A sampler may return any number: the rules that shape
/// a draw into a sample hold of every number.
pub trait Sampler {
    /// A draw from the family `dist`, made with the randomness of `rng`.
    fn draw(&mut self, dist: &DistType, rng: &mut StdRng) -> Fixed;
}

impl DistType {
    /// Whether the parameters describe a distribution: a range is not
    /// inverted, a deviation is not negative, a rate is more than zero.
    pub open spec fn valid(self) -> bool {
        match self {
            DistType::Uniform { low, high } => low.millionths <= high.millionths,
            DistType::Normal { mean, stdev } => stdev.millionths >= 0,
            DistType::LogNormal { mu, sigma } => sigma.millionths >= 0,
            DistType::Poisson { lambda } => lambda.millionths > 0,
        }
    }
}

impl Dist {
    /// Whether the family's parameters describe a distribution.
    pub open spec fn valid(self) -> bool {
        self.dist.valid()
    }

    /// The sample that a draw gives: the draw with `start` added, not less
    /// than zero, and not more than `max` if `max` is more than zero.
    pub open spec fn shaped(self, raw: Fixed) -> Fixed {
        let moved = raw.plus(self.start);
        let floored = if moved.millionths < 0 {
            Fixed { millionths: 0 }
        } else {
            moved
        };
        if self.max.millionths > 0 && floored.millionths > self.max.millionths {
            self.max
        } else {
            floored
        }
    }

    /// Checks the parameters of the distribution.
    pub fn validate(&self) -> (r: Result<(), Error>)
        ensures
            self.valid() ==> r == Ok::<(), Error>(()),
            !self.valid() ==> r == Err::<(), Error>(Error::Distribution),
    {
        let ok = match self.dist {
            DistType::Uniform { low, high } => low.millionths <= high.millionths,
            DistType::Normal { mean, stdev } => stdev.millionths >= 0,
            DistType::LogNormal { mu, sigma } => sigma.millionths >= 0,
            DistType::Poisson { lambda } => lambda.millionths > 0,
        };
        if ok {
            Ok(())
        } else {
            Err(Error::Distribution)
        }
    }

    /// The sample that the draw `raw` gives.
    pub fn shape(&self, raw: Fixed) -> (r: Fixed)
        ensures
            r == self.shaped(raw),
    {
        let moved = raw.saturating_plus(self.start);
        let floored = if moved.millionths < 0 {
            Fixed { millionths: 0 }
        } else {
            moved
        };
        if self.max.millionths > 0 && floored.millionths > self.max.millionths {
            self.max
        } else {
            floored
        }
    }

    /// Draws a sample. Whatever the sampler draws, the sample is the draw
    /// shaped by `start` and `max`.
    pub fn sample<S: Sampler>(&self, sampler: &mut S, rng: &mut StdRng) -> (r: Fixed)
        ensures
            exists|raw: Fixed| r == self.shaped(raw),
    {
        let raw = sampler.draw(&self.dist, rng);
        self.shape(raw)
    }
}

} // verus!
