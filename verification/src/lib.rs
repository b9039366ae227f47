//! A framework for traffic-analysis defenses: probabilistic state machines
//! that decide when to inject padding or block outgoing traffic, and the
//! event queue of a simulator that runs them against a recorded trace.
//!
//! The library does no I/O and reads no clock. Times are handed in as
//! microseconds, probabilities and fractions as millionths. Randomness
//! comes from a generator that the embedder seeds, and draws from
//! distributions from a [`dist::Sampler`] that the embedder supplies.
//!
//! The machines: [`machine`], [`state`], [`action`], [`dist`], [`event`].
//! Running them: [`framework`], with [`ledger`] for what a framework holds
//! and what each event does to it. The simulator's queue: [`queue`], over
//! [`heap`] and [`sim_event`]. Names and the serialized frame: [`naming`],
//! [`render`], [`codec`].

pub mod constants;
pub mod fixed;
pub mod time;
pub mod error;
pub mod event;
pub mod rng;
pub mod dist;
pub mod action;
pub mod state;
pub mod machine;
pub mod ledger;
pub mod framework;
pub mod sim_event;
pub mod heap;
pub mod queue;
pub mod render;
pub mod naming;
pub mod codec;
