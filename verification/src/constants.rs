//! Limits and sentinel values shared by machines, the framework and the
//! simulator queue.

use vstd::prelude::*;

verus! {

/// Version of the serialized machine format.
pub const VERSION: u8 = 2;

/// The largest number of states a machine may have.
pub const STATE_MAX: usize = 100_000;

/// The number of kinds of [`Event`](crate::event::Event).
pub const EVENT_NUM: usize = 13;

/// Pseudo-state: a transition to it cancels the pending action of the
/// machine and leaves the machine where it is.
pub const STATE_CANCEL: usize = usize::MAX;

/// Pseudo-state: a machine that reaches it never transitions again.
pub const STATE_END: usize = usize::MAX - 1;

/// The largest value of a state limit; also the limit of a state that
/// declares no limit distribution.
pub const STATE_LIMIT_MAX: u64 = u64::MAX;

/// Byte-carrying events of at most this size (and more than zero) are
/// ignored by machines that do not include small packets.
pub const MAX_SMALL_PACKET_SIZE: u64 = 52;

/// Upper clamp of a sampled timeout, in microseconds (a day).
pub const MAX_SAMPLED_TIMEOUT: u64 = 86_400_000_000;

/// Upper clamp of a sampled blocking duration, in microseconds (a day).
pub const MAX_SAMPLED_BLOCK_DURATION: u64 = 86_400_000_000;

/// Upper clamp of a sampled timer duration, in microseconds (a day).
pub const MAX_SAMPLED_TIMER_DURATION: u64 = 86_400_000_000;

/// The most bytes a serialized machine may decompress to.
pub const MAX_DECOMPRESSED_SIZE: usize = 1_048_576;

} // verus!
