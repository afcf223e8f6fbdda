//! Pitch algebra, intervals, scales and sample resolution for a small
//! sampler instrument.

pub mod pitch;
pub mod interval;
pub mod scale;
pub mod player;
