//! Whether a surface sends a ray on or swallows it.

use vstd::prelude::*;

verus! {

/// What a surface did with the ray that hit it.
#[derive(Clone, Copy, Debug, PartialEq, Eq, Structural)]
pub enum Scatter {
    /// The ray ends at the surface.
    Absorbed,
    /// The ray goes on in a new direction, tinted by the surface.
    Scattered,
}

/// The three surfaces of the renderer.
#[derive(Clone, Copy, Debug, PartialEq, Eq, Structural)]
pub enum Material {
    /// Diffuse: scatters around the normal.
    Lambertian,
    /// Reflective, blurred by its fuzz.
    Metal,
    /// Refractive.
    Dielectric,
}

impl Material {
    /// What the material does with a ray whose new direction has the dot
    /// product `facing` with the surface normal: a metal absorbs it unless
    /// that direction leaves the surface; the other two never absorb.
    pub open spec fn scatter_spec(self, facing: i64) -> Scatter {
        match self {
            Material::Metal => if facing > 0 {
                Scatter::Scattered
            } else {
                Scatter::Absorbed
            },
            Material::Lambertian => Scatter::Scattered,
            Material::Dielectric => Scatter::Scattered,
        }
    }

    /// Decides whether a ray is scattered or absorbed. `facing` is the dot
    /// product of the direction that the material computed for the ray with
    /// the surface normal.
    pub fn scatter(&self, facing: i64) -> (s: Scatter)
        ensures
            s == self.scatter_spec(facing),
            !(*self is Metal) ==> s is Scattered,
    {
        match self {
            Material::Metal => if facing > 0 {
                Scatter::Scattered
            } else {
                Scatter::Absorbed
            },
            Material::Lambertian => Scatter::Scattered,
            Material::Dielectric => Scatter::Scattered,
        }
    }
}

} // verus!
