//! Surface materials: a base color, a three-channel weighting of the
//! lighting terms, and a specular exponent.

use vstd::prelude::*;

use crate::vector::{V3i, Vec3f};

verus! {

/// Mathematical view of a material.
pub struct MaterialV {
    pub diffuse_color: V3i,
    pub albedo: V3i,
    pub specular_exponent: nat,
}

/// A surface material. `albedo` weights, in order, the diffuse, specular
/// and reflected contributions to the final color; the specular exponent
/// is a whole number of cosine powers.
#[derive(Copy, Clone, Debug, PartialEq, Eq, Structural)]
pub struct Material {
    pub diffuse_color: Vec3f,
    pub albedo: Vec3f,
    pub specular_exponent: u32,
}

impl View for Material {
    type V = MaterialV;

    open spec fn view(&self) -> MaterialV {
        MaterialV {
            diffuse_color: self.diffuse_color@,
            albedo: self.albedo@,
            specular_exponent: self.specular_exponent as nat,
        }
    }
}

impl Material {
    /// Builds a material from its color, its albedo weights and its
    /// specular exponent.
    pub fn new(color: Vec3f, albedo: Vec3f, spec_exp: u32) -> (m: Material)
        ensures
            m@ == (MaterialV {
                diffuse_color: color@,
                albedo: albedo@,
                specular_exponent: spec_exp as nat,
            }),
    {
        Material { diffuse_color: color, albedo, specular_exponent: spec_exp }
    }
}

} // verus!
