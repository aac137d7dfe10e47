//! Playback core of a soundboard: the bookkeeping behind playing, pausing,
//! seeking and stopping many sounds at once, moving them between output
//! devices, caching decoded files and metering their levels.
//!
//! The crate holds no audio code. Sinks, streams and sample buffers are type
//! parameters, time is a millisecond count on a clock the caller reads,
//! levels are fixed-point numbers, and every decision the engine takes is a
//! function with a proved contract.

pub mod assoc;
pub mod cache;
pub mod clock;
pub mod devices;
pub mod engine;
pub mod laws;
pub mod levels;
pub mod meter;
pub mod names;
pub mod progress;
pub mod session;
pub mod text;
