//! Audio-fragment extraction and level normalization over 16-bit PCM samples.
//!
//! The library works on in-memory interleaved sample buffers: a splice
//! processor extracts randomly positioned fixed-duration sub-clips (optionally
//! reversing their sample order), and a normalize processor rescales sample
//! amplitude so the peak magnitude matches a target level. Decoding and
//! encoding of the WAV container, as well as packaging of the produced clips,
//! are left to the caller.

pub mod api;
pub mod arith;
pub mod audio;
pub mod config;
pub mod errors;
pub mod normalize;
pub mod processor;
pub mod result;
mod rng;
pub mod samples;
pub mod splice;
