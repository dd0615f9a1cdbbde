//! Energy-cost features of rendering patterns.
use vstd::prelude::*;

verus! {

/// Rendering patterns with known cost profiles.
#[derive(Debug, Clone, Copy, PartialEq, Eq, Structural)]
pub enum PatternId {
    ZombieVomit,
    ToxicSmear,
    /// Any other pattern.
    Other,
}

/// BCI summary of a session; scores are binary32 bit patterns.
#[derive(Debug, Clone)]
pub struct BciSummary {
    pub stress_score: u32,
    pub visual_overload_index: u32,
    pub startle_spike: u32,
    pub signal_quality: u32,
    pub stress_band: String,
    pub attention_band: String,
}

/// Static cost features of a pattern's shader work.
#[derive(Debug, Clone, Copy, PartialEq, Eq, Structural)]
pub struct EnergyCostFeatures {
    pub simd_lanes_active: u32,
    pub cache_misses_estimated: u32,
    pub branch_count: u32,
    pub float_ops: u32,
    pub memory_reads: u32,
}

impl Default for EnergyCostFeatures {
    fn default() -> (r: Self)
        ensures
            r == (EnergyCostFeatures { simd_lanes_active: 0, cache_misses_estimated: 0, branch_count: 0, float_ops: 0, memory_reads: 0 }),
    {
        EnergyCostFeatures { simd_lanes_active: 0, cache_misses_estimated: 0, branch_count: 0, float_ops: 0, memory_reads: 0 }
    }
}

/// The cost features of a pattern.
pub open spec fn features_of(pattern: PatternId) -> EnergyCostFeatures {
    match pattern {
        PatternId::ZombieVomit => EnergyCostFeatures {
            simd_lanes_active: 4,
            cache_misses_estimated: 12,
            branch_count: 2,
            float_ops: 28,
            memory_reads: 6,
        },
        PatternId::ToxicSmear => EnergyCostFeatures {
            simd_lanes_active: 4,
            cache_misses_estimated: 10,
            branch_count: 2,
            float_ops: 26,
            memory_reads: 6,
        },
        PatternId::Other => EnergyCostFeatures { simd_lanes_active: 0, cache_misses_estimated: 0, branch_count: 0, float_ops: 0, memory_reads: 0 },
    }
}

impl EnergyCostFeatures {
    /// The cost features of `pattern`; patterns without a profile cost nothing.
    pub fn extract_from_pattern(pattern: PatternId, bci: &BciSummary) -> (r: Self)
        ensures
            r == features_of(pattern),
    {
        match pattern {
            PatternId::ZombieVomit => EnergyCostFeatures {
                simd_lanes_active: 4,
                cache_misses_estimated: 12,
                branch_count: 2,
                float_ops: 28,
                memory_reads: 6,
            },
            PatternId::ToxicSmear => EnergyCostFeatures {
                simd_lanes_active: 4,
                cache_misses_estimated: 10,
                branch_count: 2,
                float_ops: 26,
                memory_reads: 6,
            },
            _ => Self::default(),
        }
    }
}

} // verus!
