//! Streaming detection pipeline: tensor decoding, batch codec, windowed
//! aggregation, topology construction and lifecycle supervision.

pub mod agg;
pub mod batch;
pub mod codec;
pub mod config;
pub mod decoder;
pub mod fbits;
pub mod lifecycle;
pub mod pipeline;
pub mod tensor;
pub mod wire;

use vstd::prelude::*;

verus! {

/// Nanoseconds in one second, the base unit of the pipeline clock.
pub const NANOS_PER_SECOND: u64 = 1_000_000_000;

} // verus!
