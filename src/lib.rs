//! A real-time audio sample pipeline for a small synthesizer: a sample-clocked
//! melody scheduler, phase-accumulator oscillators, note-length quantization,
//! ADSR envelopes, a weighted mixer, and the ping-pong discipline that feeds a
//! circular transfer engine.
use vstd::prelude::*;

pub mod cs43l22;
pub mod dma;
pub mod envelope;
pub mod melody;
pub mod mixer;
pub mod quantize;
pub mod sequencer;
pub mod waves;

verus! {

/// Output sample rate of the pipeline, in samples per second.
pub const SAMPLE_RATE: u32 = 48000;

} // verus!
