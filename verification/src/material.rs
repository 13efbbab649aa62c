//! What each material decides when a ray hits it. The directions and colours
//! are the caller's arithmetic; the choices between them are made here.
use crate::vec::spec_is_near_zero;
use crate::vec::is_near_zero;
use vstd::prelude::*;

verus! {

/// The three materials.
#[derive(Clone, Copy, Debug, PartialEq, Eq, Structural)]
pub enum Material {
    /// Diffuse: scatters around the normal and tints by its albedo.
    Lambertian,
    /// Mirror-like: reflects about the normal, roughened by its fuzz.
    Metal,
    /// Glass: refracts, or reflects where refraction is impossible.
    Dielectric,
}

/// The direction that a diffuse scatter takes.
#[derive(Clone, Copy, Debug, PartialEq, Eq, Structural)]
pub enum Diffuse {
    /// The normal plus a random unit vector.
    Perturbed,
    /// The normal itself, where the sum would be no direction at all.
    Normal,
}

/// The way a ray takes through a dielectric surface.
#[derive(Clone, Copy, Debug, PartialEq, Eq, Structural)]
pub enum Bend {
    /// Total internal reflection.
    Reflect,
    /// Refraction by Snell's law.
    Refract,
}

impl Material {
    /// Whether the material sends a ray on. `dot` is the dot product of the
    /// candidate direction with the recorded normal: a metal scatters only
    /// outwards, the others always.
    pub open spec fn spec_scatters(self, dot: i64) -> bool {
        match self {
            Material::Metal => dot > 0,
            _ => true,
        }
    }

    /// Decides between scatter and absorption.
    pub fn scatters(&self, dot: i64) -> (sent: bool)
        ensures
            sent == self.spec_scatters(dot),
    {
        match self {
            Material::Metal => dot > 0,
            _ => true,
        }
    }

    /// A diffuse surface and a dielectric never absorb.
    pub proof fn lemma_always_scatters(self, dot: i64)
        requires
            self != Material::Metal,
        ensures
            self.spec_scatters(dot),
    {
    }

    /// Grazing rejection: a metal absorbs the ray when the perturbed
    /// reflection does not point away from the surface.
    pub proof fn lemma_metal_grazing_rejection(dot: i64)
        requires
            dot <= 0,
        ensures
            !Material::Metal.spec_scatters(dot),
    {
    }
}

/// The diffuse direction for the candidate `(x, y, z)`, the sum of normal and
/// random unit vector: the normal alone where the candidate is near zero.
pub open spec fn spec_diffuse(x: i64, y: i64, z: i64, epsilon: i64) -> Diffuse {
    if spec_is_near_zero(x, y, z, epsilon) {
        Diffuse::Normal
    } else {
        Diffuse::Perturbed
    }
}

/// Chooses the direction of a diffuse scatter.
pub fn diffuse(x: i64, y: i64, z: i64, epsilon: i64) -> (choice: Diffuse)
    ensures
        choice == spec_diffuse(x, y, z, epsilon),
{
    if is_near_zero(x, y, z, epsilon) {
        Diffuse::Normal
    } else {
        Diffuse::Perturbed
    }
}

/// The way through a dielectric: `product` is the refraction ratio times the
/// sine of the angle of incidence and `unit` the scalar that stands for one.
/// Where the product exceeds one, Snell's law has no solution.
pub open spec fn spec_bend(product: i64, unit: i64) -> Bend {
    if product > unit {
        Bend::Reflect
    } else {
        Bend::Refract
    }
}

/// Chooses between refraction and total internal reflection.
pub fn bend(product: i64, unit: i64) -> (choice: Bend)
    ensures
        choice == spec_bend(product, unit),
{
    if product > unit {
        Bend::Reflect
    } else {
        Bend::Refract
    }
}

/// Total internal reflection: a ray whose refraction ratio times sine
/// exceeds one is reflected, never refracted.
pub proof fn lemma_total_internal_reflection(product: i64, unit: i64)
    requires
        product > unit,
    ensures
        spec_bend(product, unit) == Bend::Reflect,
{
}

} // verus!
