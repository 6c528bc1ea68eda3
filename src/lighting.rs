//! Data the lighting pass uploads to the GPU.
use vstd::prelude::*;

verus! {

/// How many lights the lighting buffer holds.
#[derive(Clone, Copy, Debug, Default, PartialEq, Eq, Structural)]
pub struct LightData {
    pub light_count: i32,
}

} // verus!
