use ray_core::material::{Material, ScatterInputs, ScatterKind};

fn all_inputs() -> Vec<ScatterInputs> {
    let mut v = Vec::new();
    for near_zero in [false, true] {
        for wrong_side in [false, true] {
            for cannot_refract in [false, true] {
                for reflectance_won in [false, true] {
                    v.push(ScatterInputs { near_zero, wrong_side, cannot_refract, reflectance_won });
                }
            }
        }
    }
    v
}

#[test]
fn a_dielectric_never_absorbs_a_sample() {
    for m in all_inputs() {
        let r = Material::Dielectric.scatter(m);
        assert_ne!(r, ScatterKind::Absorbed);
        if m.cannot_refract || m.reflectance_won {
            assert_eq!(r, ScatterKind::Reflected);
        } else {
            assert_eq!(r, ScatterKind::Refracted);
        }
    }
}

#[test]
fn a_light_always_absorbs_and_a_metal_only_on_the_wrong_side() {
    for m in all_inputs() {
        assert_eq!(Material::DiffuseLight.scatter(m), ScatterKind::Absorbed);
        let metal = Material::Metal.scatter(m);
        if m.wrong_side {
            assert_eq!(metal, ScatterKind::Absorbed);
        } else {
            assert_eq!(metal, ScatterKind::Specular);
        }
    }
}

#[test]
fn the_diffuse_fallback_replaces_a_degenerate_direction() {
    for m in all_inputs() {
        let r = Material::Lambertian.scatter(m);
        if m.near_zero {
            assert_eq!(r, ScatterKind::DiffuseFallback);
        } else {
            assert_eq!(r, ScatterKind::Diffuse);
        }
        assert_eq!(Material::Isotropic.scatter(m), ScatterKind::Uniform);
    }
}
