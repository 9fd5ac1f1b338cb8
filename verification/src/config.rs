//! The tagged configuration that selects a processor and carries its
//! parameters.
//!
//! Durations are whole milliseconds and the target level is a rational in
//! (0, 1]; the variant tag decides which processor may accept the value,
//! and a processor presented with the wrong variant fails validation.

use vstd::prelude::*;

verus! {

/// A target peak level, the rational `num / den`. A valid level lies in
/// (0, 1], where 1 is full scale (0 dB).
#[derive(Debug, Clone, Copy, PartialEq, Eq, Structural)]
pub struct TargetLevel {
    pub num: u32,
    pub den: u32,
}

impl TargetLevel {
    /// The level is a rational in (0, 1].
    pub open spec fn is_valid(self) -> bool {
        1 <= self.num <= self.den
    }

    pub fn new(num: u32, den: u32) -> (r: TargetLevel)
        ensures
            r.num == num,
            r.den == den,
    {
        TargetLevel { num, den }
    }

    /// Full scale: the level 1.
    pub fn full_scale() -> (r: TargetLevel)
        ensures
            r.num == 1,
            r.den == 1,
            r.is_valid(),
    {
        TargetLevel { num: 1, den: 1 }
    }
}

/// The configuration variants, one per processor.
#[derive(Debug, Clone, Copy, PartialEq, Eq, Structural)]
pub enum ProcessorConfig {
    /// Extract `count` randomly positioned clips of `duration_ms`
    /// milliseconds each, optionally reversing their sample order.
    Splice { duration_ms: u64, count: i32, reverse: bool },
    /// Rescale amplitude so the peak matches `target`; either over the
    /// whole file, or over each clip of an internal splice step.
    Normalize { target: TargetLevel, apply_to_splices: bool },
}

} // verus!
