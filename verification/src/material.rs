use vstd::prelude::*;

verus! {

/// The surface models, by kind. What each model computes on reals — lobes,
/// reflectance, refraction angles — stays with the caller; what is decided
/// here is the scattering protocol itself: which kinds scatter at all, and
/// which branch of each model one sample takes.
#[derive(Clone, Copy, PartialEq, Eq, Structural, Debug)]
pub enum Material {
    Lambertian,
    Metal,
    Dielectric,
    Isotropic,
    DiffuseLight,
}

/// What the caller measured while preparing one scattering sample. Each
/// field is the outcome of a comparison the models prescribe; a kind reads
/// only the fields that belong to it.
#[derive(Clone, Copy, PartialEq, Eq, Structural, Debug)]
pub struct ScatterInputs {
    /// The diffuse direction (normal plus a unit sample) came out
    /// numerically near zero.
    pub near_zero: bool,
    /// The fuzzed reflection points into the surface rather than away from
    /// it.
    pub wrong_side: bool,
    /// Total internal reflection: the refraction ratio times the incident
    /// sine exceeds one.
    pub cannot_refract: bool,
    /// The Schlick reflectance beat the uniform draw, so this sample
    /// reflects rather than refracts.
    pub reflectance_won: bool,
}

/// The ray one sample leaves with, or absorption.
#[derive(Clone, Copy, PartialEq, Eq, Structural, Debug)]
pub enum ScatterKind {
    /// The diffuse lobe direction as computed.
    Diffuse,
    /// The surface normal itself, standing in for a degenerate diffuse
    /// direction.
    DiffuseFallback,
    /// The fuzzed mirror direction.
    Specular,
    /// The plain mirror direction, by total internal reflection or a
    /// winning reflectance draw.
    Reflected,
    /// The refracted direction.
    Refracted,
    /// A uniform direction, the isotropic phase function.
    Uniform,
    /// No scattered ray: the surface absorbs the path.
    Absorbed,
}

impl Material {
    pub open spec fn spec_scatter(self, m: ScatterInputs) -> ScatterKind {
        match self {
            Material::Lambertian => if m.near_zero {
                ScatterKind::DiffuseFallback
            } else {
                ScatterKind::Diffuse
            },
            Material::Metal => if m.wrong_side {
                ScatterKind::Absorbed
            } else {
                ScatterKind::Specular
            },
            Material::Dielectric => if m.cannot_refract || m.reflectance_won {
                ScatterKind::Reflected
            } else {
                ScatterKind::Refracted
            },
            Material::Isotropic => ScatterKind::Uniform,
            Material::DiffuseLight => ScatterKind::Absorbed,
        }
    }

    /// One scattering decision. A sample is absorbed exactly at a light, or
    /// at a metal whose fuzzed reflection fell inside the surface.
    pub fn scatter(&self, m: ScatterInputs) -> (r: ScatterKind)
        ensures
            r == self.spec_scatter(m),
            r == ScatterKind::Absorbed <==> (*self == Material::DiffuseLight || (*self
                == Material::Metal && m.wrong_side)),
    {
        match self {
            Material::Lambertian => {
                if m.near_zero {
                    ScatterKind::DiffuseFallback
                } else {
                    ScatterKind::Diffuse
                }
            },
            Material::Metal => {
                if m.wrong_side {
                    ScatterKind::Absorbed
                } else {
                    ScatterKind::Specular
                }
            },
            Material::Dielectric => {
                if m.cannot_refract || m.reflectance_won {
                    ScatterKind::Reflected
                } else {
                    ScatterKind::Refracted
                }
            },
            Material::Isotropic => ScatterKind::Uniform,
            Material::DiffuseLight => ScatterKind::Absorbed,
        }
    }

    /// A dielectric splits every sample between reflection and refraction
    /// and absorbs none: whatever the measurements, it leaves with a ray.
    pub proof fn lemma_dielectric_never_absorbs(m: ScatterInputs)
        ensures
            Material::Dielectric.spec_scatter(m) != ScatterKind::Absorbed,
    {
    }

    /// A light never scatters: every sample that reaches it ends there.
    pub proof fn lemma_light_always_absorbs(m: ScatterInputs)
        ensures
            Material::DiffuseLight.spec_scatter(m) == ScatterKind::Absorbed,
    {
    }
}

} // verus!
