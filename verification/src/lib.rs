//! Audio-to-haptic pipeline core.
//!
//! Streamed PCM chunks are accumulated in a thread-safe byte buffer,
//! drained periodically, decoded, transformed into a magnitude spectrum,
//! partitioned into configured frequency bands, and turned into actuator
//! commands that a dispatcher hands to the haptic device one batch at a
//! time.

pub mod bands;
pub mod buffer;
pub mod dispatch;
pub mod mapper;
pub mod pipeline;
pub mod spectrum;
pub mod wav;
