//! Scene objects: materials, spheres and point lights, and the ray–sphere
//! intersection query.

use vstd::prelude::*;
use crate::fixed::{
    fx_add, fx_mul, fx_sqrt, fx_sub, spec_fx_add, spec_fx_mul, spec_fx_sqrt, spec_fx_sub, ONE,
};
use crate::vec3::{spec_vdot, spec_vsub, vdot, vsub, Vec3, V3};

verus! {

/// Surface description: a diffuse tint, three reflectance weights
/// (diffuse, specular, mirror — the "albedo"), and a Phong shininess
/// exponent. The exponent is a whole number; the weights and tint are
/// fixed-point scalars, nominally in `[0, ONE]` but not clamped at
/// construction.
#[derive(Clone, Copy, PartialEq, Eq, Structural, Debug)]
pub struct Material {
    pub diffuse_color: Vec3,
    pub albedo: Vec3,
    pub specular_exponent: u32,
}

/// The material a fresh intersection record starts from: an opaque red
/// surface with no specular or mirror component.
pub open spec fn spec_default_material() -> Material {
    Material {
        diffuse_color: Vec3 { x: ONE, y: 0, z: 0 },
        albedo: Vec3 { x: ONE, y: 0, z: 0 },
        specular_exponent: 0,
    }
}

impl Default for Material {
    /// An opaque red material with no specular or mirror component.
    fn default() -> (r: Self)
        ensures
            r == spec_default_material(),
    {
        Material {
            diffuse_color: Vec3 { x: ONE, y: 0, z: 0 },
            albedo: Vec3 { x: ONE, y: 0, z: 0 },
            specular_exponent: 0,
        }
    }
}

impl Material {
    pub fn new(albedo: Vec3, diffuse_color: Vec3, specular_exponent: u32) -> (r: Material)
        ensures
            r.albedo == albedo,
            r.diffuse_color == diffuse_color,
            r.specular_exponent == specular_exponent,
    {
        Material { diffuse_color, albedo, specular_exponent }
    }
}

/// A sphere with its surface material. Radius is positive; a scene is an
/// ordered sequence of spheres, and the order breaks ties between
/// equidistant hits.
#[derive(Clone, Copy, PartialEq, Eq, Structural, Debug)]
pub struct Sphere {
    pub center: Vec3,
    pub radius: i64,
    pub material: Material,
}

/// Squared perpendicular distance (as a fixed-point scalar) from the
/// sphere's center to the ray's supporting line, computed as
/// `|l|^2 - (l·dir)^2` for `l` the center minus the ray origin.
pub open spec fn spec_perp_dist2(s: Sphere, origin: V3, dir: V3) -> int {
    let l = spec_vsub(s.center@, origin);
    let tca = spec_vdot(l, dir);
    spec_fx_sub(spec_vdot(l, l), spec_fx_mul(tca, tca))
}

/// The sphere's squared radius as a fixed-point scalar.
pub open spec fn spec_radius2(s: Sphere) -> int {
    spec_fx_mul(s.radius as int, s.radius as int)
}

/// The ray–sphere query: whether the ray hits, and at what distance.
///
/// Solves the quadratic geometrically: project the center onto the ray
/// (`tca`), reject when the perpendicular distance exceeds the radius,
/// otherwise take the near root `tca - thc`, falling back to the far root
/// `tca + thc` when the near one is behind the origin. When no
/// non-negative root exists there is no hit, and the distance slot carries
/// the last candidate examined (or `tin` when rejected early), exactly as
/// the executable function leaves it.
pub open spec fn spec_ray_intersect(s: Sphere, origin: V3, dir: V3, tin: int) -> (bool, int) {
    let tca = spec_vdot(spec_vsub(s.center@, origin), dir);
    let d2 = spec_perp_dist2(s, origin, dir);
    let rr = spec_radius2(s);
    if d2 > rr {
        (false, tin)
    } else {
        let thc = spec_fx_sqrt(spec_fx_sub(rr, d2));
        let t0 = spec_fx_sub(tca, thc);
        let t1 = spec_fx_add(tca, thc);
        let t = if t0 < 0 {
            t1
        } else {
            t0
        };
        if t < 0 {
            (false, t)
        } else {
            (true, t)
        }
    }
}

impl Sphere {
    pub fn new(center: Vec3, radius: i64, material: Material) -> (r: Sphere)
        requires
            radius > 0,
        ensures
            r.center == center,
            r.radius == radius,
            r.material == material,
    {
        Sphere { center, radius, material }
    }

    /// Whether the ray from `ray_origin` along the unit direction `dir`
    /// hits this sphere, and at what distance along the ray; `t0` is the
    /// caller's current distance slot, handed back unchanged on an early
    /// reject.
    pub fn ray_intersect(&self, ray_origin: Vec3, dir: Vec3, t0: i64) -> (res: (bool, i64))
        ensures
            (res.0, res.1 as int) == spec_ray_intersect(*self, ray_origin@, dir@, t0 as int),
    {
        let l = vsub(self.center, ray_origin);
        let tca = vdot(l, dir);
        let d2 = fx_sub(vdot(l, l), fx_mul(tca, tca));
        let rr = fx_mul(self.radius, self.radius);
        if d2 > rr {
            return (false, t0);
        }
        let thc = fx_sqrt(fx_sub(rr, d2));
        let near = fx_sub(tca, thc);
        let far = fx_add(tca, thc);
        let t = if near < 0 {
            far
        } else {
            near
        };
        if t < 0 {
            (false, t)
        } else {
            (true, t)
        }
    }
}

/// A point light: a position and a scalar intensity.
#[derive(Clone, Copy, PartialEq, Eq, Structural, Debug)]
pub struct Light {
    pub position: Vec3,
    pub intensity: i64,
}

impl Light {
    pub fn new(position: Vec3, intensity: i64) -> (r: Light)
        requires
            intensity >= 0,
        ensures
            r.position == position,
            r.intensity == intensity,
    {
        Light { position, intensity }
    }
}

} // verus!
