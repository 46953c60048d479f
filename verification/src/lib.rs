//! Signal-processing core of a stereo granular delay effect.
//!
//! Incoming audio is stored in a circular buffer; short enveloped grains
//! continuously read fragments of that buffer back at controllable offsets,
//! pitches and densities, and are re-summed into the output with independent
//! feedback and dry/wet control.  All audio values and parameters are Q32
//! fixed-point numbers (an `i64` holding value * 2^32), so every sample of
//! the render path is exact integer arithmetic with proved bounds.
//!
//! Each module states its component's laws as proof functions next to the
//! code: the trigger's exact periodicity under zero chaos, the grain's
//! lifecycle and pitch-zero stationarity, the ring buffer's head wrap and
//! the cubic kernel's identity on grid points, the density compensation's
//! endpoints and monotonicity, and the orchestrator's silence preservation,
//! impulse localization and output bound.

pub mod fx;

pub mod noise;

pub mod env_osc;

pub mod trigger;

pub mod grain;

pub mod ring;

pub mod filter;

pub mod playhead;

pub mod snapshot;

pub mod delay;

