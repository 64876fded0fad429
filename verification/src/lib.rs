//! A verified model of a GPU correction pipeline for raw sensor imagery.
//!
//! The engine corrects single-channel 16-bit frames by chaining up to three
//! per-pixel stages in a fixed order — offset/dark-current subtraction, gain
//! (flat-field) normalization, and defect-pixel interpolation — over one
//! working buffer, with a ring of reusable frame slots guarding multi-frame
//! submissions.
//!
//! This crate holds the engine's decision and computation logic with proofs:
//! parameter validation, the stage registry, the per-pixel stage semantics,
//! the composition of a frame's command sequence, the frame-slot ring state
//! machine, and the byte/pixel conversions used at the readback boundary.
//! Driving an actual GPU device (adapter negotiation, buffer mapping,
//! queue submission) is left to an unverified host layer that consults this
//! crate for every decision and is handed the command plan to execute.

pub mod bytes;
pub mod compose;
pub mod defect;
pub mod engine;
pub mod error;
pub mod gain;
pub mod geometry;
pub mod offset;
pub mod power;
pub mod ring;
pub mod stage;
