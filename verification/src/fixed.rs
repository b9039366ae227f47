//! Fixed-point numbers. Probabilities, fractions and distribution
//! parameters are counted in millionths, so that every rule over them is
//! exact integer arithmetic.

use vstd::prelude::*;

verus! {

/// How many millionths make one.
pub const UNIT: i64 = 1_000_000;

/// A number counted in millionths: `Fixed { millionths: 1_500_000 }` is 1.5.
#[derive(Clone, Copy, Debug, PartialEq, Eq, Structural, Hash)]
pub struct Fixed {
    pub millionths: i64,
}

impl Fixed {
    /// The number `m / 1_000_000`.
    pub fn from_millionths(m: i64) -> (r: Fixed)
        ensures
            r.millionths == m,
    {
        Fixed { millionths: m }
    }

    /// The whole number `w`.
    pub fn from_whole(w: u32) -> (r: Fixed)
        ensures
            r.millionths == w * UNIT,
    {
        let wide: i64 = w as i64;
        Fixed { millionths: wide * UNIT }
    }

    /// The number of millionths.
    pub fn as_millionths(&self) -> (r: i64)
        ensures
            r == self.millionths,
    {
        self.millionths
    }

    /// Whether the number lies in `[0, 1]`.
    pub open spec fn is_fraction(self) -> bool {
        0 <= self.millionths <= UNIT
    }

    /// Whether the number lies in `[0, 1]`.
    pub fn in_unit_interval(&self) -> (r: bool)
        ensures
            r == self.is_fraction(),
    {
        0 <= self.millionths && self.millionths <= UNIT
    }

    /// The whole part of a number, with a negative number counted as zero.
    pub open spec fn trunc(self) -> int {
        if self.millionths <= 0 {
            0
        } else {
            self.millionths as int / UNIT as int
        }
    }

    /// The nearest whole number, halves rounded up, with a negative number
    /// counted as zero.
    pub open spec fn round(self) -> int {
        if self.millionths <= 0 {
            0
        } else {
            (self.millionths as int + 500_000) / UNIT as int
        }
    }

    /// The sum of two numbers, held to the range of `i64`.
    pub open spec fn plus(self, other: Fixed) -> Fixed {
        let sum = self.millionths as int + other.millionths as int;
        if sum > i64::MAX {
            Fixed { millionths: i64::MAX }
        } else if sum < i64::MIN {
            Fixed { millionths: i64::MIN }
        } else {
            Fixed { millionths: sum as i64 }
        }
    }

    /// The whole part, a negative number counted as zero.
    pub fn to_whole(&self) -> (r: u64)
        ensures
            r == self.trunc(),
    {
        if self.millionths <= 0 {
            0
        } else {
            (self.millionths / UNIT) as u64
        }
    }

    /// The nearest whole number, a negative number counted as zero.
    pub fn to_nearest(&self) -> (r: u64)
        ensures
            r == self.round(),
    {
        if self.millionths <= 0 {
            0
        } else {
            let wide: i128 = self.millionths as i128 + 500_000;
            (wide / 1_000_000) as u64
        }
    }

    /// The sum of two numbers, held to the range of `i64`.
    pub fn saturating_plus(&self, other: Fixed) -> (r: Fixed)
        ensures
            r == self.plus(other),
    {
        let sum: i128 = self.millionths as i128 + other.millionths as i128;
        if sum > i64::MAX as i128 {
            Fixed { millionths: i64::MAX }
        } else if sum < i64::MIN as i128 {
            Fixed { millionths: i64::MIN }
        } else {
            Fixed { millionths: sum as i64 }
        }
    }
}

} // verus!
