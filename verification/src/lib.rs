//! A triggered loop-capture ("stutter") audio engine.
//!
//! The engine captures live audio into a fixed-capacity per-channel buffer
//! while a trigger gate is held, replays the captured material as a loop
//! whose length can be changed while playing, and passes audio through
//! untouched otherwise.
//!
//! Samples are carried as their raw 32-bit patterns (`u32`): the engine only
//! stores and forwards them and never does arithmetic on them, so the verified
//! core is independent of the host's floating-point sample format. Blending
//! the looped signal with the dry input (the wet/dry mix) is floating-point
//! arithmetic and lives with the unverified host glue.

use vstd::prelude::*;

pub mod engine;
pub mod median_params;
pub mod params;
pub mod ring;

verus! {

/// Fixed per-plugin sample storage: the most samples a channel buffer can
/// ever hold. Channel buffers are allocated once at this scale and never
/// resized.
pub const MAX_BUFFER_SIZE: usize = 32768;

} // verus!
