//! Block-based stereo audio filter engine for a hard-real-time DSP pipeline.
//!
//! The crate is organised leaf-first: `filter` holds the single-channel
//! second-order recursive filter, `processor` the stereo pair that applies
//! parameter updates atomically across both channels, `channel` the bounded
//! single-producer/single-consumer conduit with a coalescing drain,
//! `sampler` the mapping from raw control readings into the filter's
//! parameter domain, and `bench` the cycle-counter arithmetic used to check
//! that a block fits its real-time budget.
//!
//! All sample and coefficient arithmetic is carried out in fixed-point
//! integers (scale `1 << 20`), so every numeric step of the engine is stated
//! and proved exactly.

pub mod bench;
pub mod channel;
pub mod filter;
pub mod processor;
pub mod sampler;
