//! Point lights: a position and a positive intensity.

use vstd::prelude::*;

use crate::vector::{V3i, Vec3f};

verus! {

/// Mathematical view of a light.
pub struct LightV {
    pub position: V3i,
    pub intensity: int,
}

/// A point light source.
#[derive(Copy, Clone, Debug, PartialEq, Eq, Structural)]
pub struct Light {
    pub position: Vec3f,
    pub intensity: i64,
}

impl View for Light {
    type V = LightV;

    open spec fn view(&self) -> LightV {
        LightV { position: self.position@, intensity: self.intensity as int }
    }
}

impl Light {
    /// Builds a light from its position and its positive intensity.
    pub fn new(position: Vec3f, intensity: i64) -> (l: Light)
        requires
            intensity > 0,
        ensures
            l@ == (LightV { position: position@, intensity: intensity as int }),
    {
        Light { position, intensity }
    }
}

} // verus!
