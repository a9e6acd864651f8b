use vstd::prelude::*;

verus! {

pub const EXPERIMENTAL_RAY_TRACING_ACCELERATION_STRUCTURE: u64 = 0x1;
pub const EXPERIMENTAL_RAY_QUERY: u64 = 0x2;
pub const BUFFER_BINDING_ARRAY: u64 = 0x4;
pub const TEXTURE_BINDING_ARRAY: u64 = 0x8;
pub const SAMPLED_TEXTURE_AND_STORAGE_BUFFER_ARRAY_NON_UNIFORM_INDEXING: u64 = 0x10;
pub const PARTIALLY_BOUND_BINDING_ARRAY: u64 = 0x20;

/// A set of GPU features, one bit per feature.
#[derive(Clone, Copy, Debug, PartialEq, Eq, Hash, Structural)]
pub struct WgpuFeatures {
    pub bits: u64,
}

impl WgpuFeatures {
    pub fn from_bits(bits: u64) -> (r: Self)
        ensures
            r.bits == bits,
    {
        WgpuFeatures { bits }
    }

    /// Whether every feature of `other` is in this set.
    pub fn contains(&self, other: WgpuFeatures) -> (r: bool)
        ensures
            r == (self.bits & other.bits == other.bits),
    {
        self.bits & other.bits == other.bits
    }

    /// The features of this set that `other` lacks.
    pub fn difference(&self, other: WgpuFeatures) -> (r: WgpuFeatures)
        ensures
            r.bits == self.bits & !other.bits,
    {
        WgpuFeatures { bits: self.bits & !other.bits }
    }

    /// The features of either set.
    pub fn union(&self, other: WgpuFeatures) -> (r: WgpuFeatures)
        ensures
            r.bits == self.bits | other.bits,
    {
        WgpuFeatures { bits: self.bits | other.bits }
    }
}

/// The features that raytraced lighting needs.
pub open spec fn required_bits() -> u64 {
    EXPERIMENTAL_RAY_TRACING_ACCELERATION_STRUCTURE | EXPERIMENTAL_RAY_QUERY | BUFFER_BINDING_ARRAY
        | TEXTURE_BINDING_ARRAY | SAMPLED_TEXTURE_AND_STORAGE_BUFFER_ARRAY_NON_UNIFORM_INDEXING
        | PARTIALLY_BOUND_BINDING_ARRAY
}

/// The plugin for raytraced lighting.
#[derive(Clone, Copy, Debug, Default)]
pub struct SolariPlugin;

/// The systems of raytraced lighting, which run only where the GPU has the
/// required features.
#[derive(Clone, Copy, Debug, PartialEq, Eq, Hash, Structural)]
pub struct SolariSystems;

impl SolariPlugin {
    /// The GPU features that raytraced lighting needs.
    pub fn required_wgpu_features() -> (r: WgpuFeatures)
        ensures
            r.bits == required_bits(),
    {
        WgpuFeatures {
            bits: EXPERIMENTAL_RAY_TRACING_ACCELERATION_STRUCTURE | EXPERIMENTAL_RAY_QUERY
                | BUFFER_BINDING_ARRAY | TEXTURE_BINDING_ARRAY
                | SAMPLED_TEXTURE_AND_STORAGE_BUFFER_ARRAY_NON_UNIFORM_INDEXING
                | PARTIALLY_BOUND_BINDING_ARRAY,
        }
    }

    /// Whether a GPU with `features` can run raytraced lighting.
    pub fn has_required_features(features: WgpuFeatures) -> (r: bool)
        ensures
            r == (features.bits & required_bits() == required_bits()),
    {
        features.contains(SolariPlugin::required_wgpu_features())
    }

    /// The required features that a GPU with `features` lacks.
    pub fn missing_features(features: WgpuFeatures) -> (r: WgpuFeatures)
        ensures
            r.bits == required_bits() & !features.bits,
    {
        SolariPlugin::required_wgpu_features().difference(features)
    }
}

} // verus!
