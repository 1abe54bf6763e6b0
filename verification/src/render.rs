//! The rendering engine: scene intersection, the recursive Whitted shader,
//! and the camera loop.
//!
//! Every executable function's result is pinned exactly to a spec-level
//! twin, so rendering is provably a pure function of the scene and the
//! configuration.

use vstd::prelude::*;
use vstd::arithmetic::div_mod::lemma_fundamental_div_mod_converse;
use crate::fixed::{
    fx_add, fx_clamp01, fx_div, fx_mul, fx_pow, fx_sub, in_range, spec_clamp01, spec_fx_add,
    spec_fx_div, spec_fx_mul, spec_fx_pow, spec_fx_sub, spec_to_fx, tdiv, to_fx, MAXV, ONE, SCALE,
};
use crate::vec3::{
    spec_vadd, spec_vdot, spec_vnorm, spec_vnormalize, spec_vscale, spec_vsub, vadd, vdot, vnorm,
    vnormalize, vscale, vsub, Vec3, V3,
};
use crate::object::{spec_default_material, spec_ray_intersect, Light, Material, Sphere};

verus! {

/// Distance marker for "no hit yet": beyond any saturated scalar, so any
/// real candidate distance wins the minimum.
pub const FAR: i64 = 9223372036854775807;

/// The scalar two, used by the mirror-reflection formula.
pub const TWO: i64 = 131072;

/// The engine's configuration: image geometry, camera, recursion bound,
/// background color, world horizon (hits at or beyond it do not count) and
/// the bias offset for secondary-ray origins.
///
/// The camera is described by the tangent of half the vertical field of
/// view, as a fixed-point scalar; for a field of view in `(0, pi)` that
/// tangent is positive.
#[derive(Clone, Copy, PartialEq, Eq, Structural, Debug)]
pub struct Config {
    pub width: u32,
    pub height: u32,
    pub half_fov_tan: i64,
    pub max_recursion_depth: u32,
    pub background_color: Vec3,
    pub world_horizon: i64,
    pub bias: i64,
}

impl Config {
    /// A usable configuration: positive image dimensions that fit a byte
    /// buffer, a positive camera tangent and horizon, a non-negative bias,
    /// and a recursion bound with room for the depth counter.
    pub open spec fn wf(&self) -> bool {
        &&& self.width > 0
        &&& self.height > 0
        &&& self.half_fov_tan > 0
        &&& 0 < self.world_horizon <= MAXV
        &&& self.bias >= 0
        &&& self.max_recursion_depth < u32::MAX
        &&& self.width as int * self.height as int * 3 <= usize::MAX as int
    }

    /// Runtime check of `wf`, so that callers can fail fast on an invalid
    /// configuration before any rendering work begins.
    pub fn is_wf(&self) -> (r: bool)
        ensures
            r == self.wf(),
    {
        proof {
            assert((self.width as u128) * (self.height as u128) * 3 == self.width as int
                * self.height as int * 3 && (self.width as u128) * (self.height as u128) * 3
                < 0x1000000000000000000u128) by (nonlinear_arith)
                requires
                    (self.width as u128) == self.width as int,
                    (self.height as u128) == self.height as int,
                    (self.width as u128) < 0x100000000u128,
                    (self.height as u128) < 0x100000000u128;
        }
        self.width > 0 && self.height > 0 && self.half_fov_tan > 0 && 0 < self.world_horizon
            && self.world_horizon <= MAXV && self.bias >= 0 && self.max_recursion_depth < u32::MAX
            && (self.width as u128) * (self.height as u128) * 3 <= (usize::MAX as u128)
    }
}

/// Result of a scene-intersection query. When `hit` is false the geometry
/// and material fields are the scan's leftovers and say nothing about the
/// scene; callers must test `hit` before reading them.
#[derive(Clone, Copy, PartialEq, Eq, Structural, Debug)]
pub struct HitRecord {
    pub hit: bool,
    pub point: Vec3,
    pub normal: Vec3,
    pub material: Material,
}

/// Mathematical view of a `HitRecord`.
pub ghost struct HitV {
    pub hit: bool,
    pub point: V3,
    pub normal: V3,
    pub material: Material,
}

impl View for HitRecord {
    type V = HitV;

    open spec fn view(&self) -> HitV {
        HitV { hit: self.hit, point: self.point@, normal: self.normal@, material: self.material }
    }
}

/// Running state of the linear scan over the spheres: the best (smallest)
/// accepted distance so far and the hit data that produced it.
pub ghost struct ScanState {
    pub dist: int,
    pub point: V3,
    pub normal: V3,
    pub material: Material,
}

/// Before any sphere is examined: no distance accepted, zeroed geometry,
/// default material.
pub open spec fn spec_scan_init() -> ScanState {
    ScanState {
        dist: FAR as int,
        point: V3 { x: 0, y: 0, z: 0 },
        normal: V3 { x: 0, y: 0, z: 0 },
        material: spec_default_material(),
    }
}

/// Examine one sphere: accept its hit when strictly closer than the best
/// so far (so of equal distances the earlier sphere is kept), recording
/// the hit point, the outward surface normal and the sphere's material.
pub open spec fn spec_scan_step(st: ScanState, s: Sphere, origin: V3, dir: V3) -> ScanState {
    let res = spec_ray_intersect(s, origin, dir, 0);
    if res.0 && res.1 < st.dist {
        let point = spec_vadd(origin, spec_vscale(dir, res.1));
        ScanState {
            dist: res.1,
            point: point,
            normal: spec_vnormalize(spec_vsub(point, s.center@)),
            material: s.material,
        }
    } else {
        st
    }
}

/// Left-to-right scan of the whole scene.
pub open spec fn spec_scan(spheres: Seq<Sphere>, origin: V3, dir: V3) -> ScanState
    decreases spheres.len(),
{
    if spheres.len() == 0 {
        spec_scan_init()
    } else {
        spec_scan_step(spec_scan(spheres.drop_last(), origin, dir), spheres.last(), origin, dir)
    }
}

/// The nearest hit of the ray against the scene, reported as a hit only
/// when its distance is below the world horizon.
pub open spec fn spec_scene_intersect(
    origin: V3,
    dir: V3,
    spheres: Seq<Sphere>,
    horizon: int,
) -> HitV {
    let st = spec_scan(spheres, origin, dir);
    HitV { hit: st.dist < horizon, point: st.point, normal: st.normal, material: st.material }
}

pub(crate) proof fn lemma_take_succ<A>(s: Seq<A>, i: int)
    requires
        0 <= i < s.len(),
    ensures
        s.take(i + 1).drop_last() == s.take(i),
        s.take(i + 1).last() == s[i],
{
    assert(s.take(i + 1).drop_last() =~= s.take(i));
}

/// Scan all spheres for the nearest hit of the ray from `origin` along
/// the unit vector `direction`; hits at or beyond `horizon` do not count.
/// Pure: the result is exactly `spec_scene_intersect`.
#[verifier::loop_isolation(false)]
pub fn scene_intersect(
    origin: Vec3,
    direction: Vec3,
    spheres: &Vec<Sphere>,
    horizon: i64,
) -> (r: HitRecord)
    ensures
        r@ == spec_scene_intersect(origin@, direction@, spheres@, horizon as int),
{
    let mut dist: i64 = FAR;
    let mut point = Vec3::zero();
    let mut normal = Vec3::zero();
    let mut material = Material::default();
    let mut idx: usize = 0;
    while idx < spheres.len()
        invariant
            idx <= spheres@.len(),
            dist as int == spec_scan(spheres@.take(idx as int), origin@, direction@).dist,
            point@ == spec_scan(spheres@.take(idx as int), origin@, direction@).point,
            normal@ == spec_scan(spheres@.take(idx as int), origin@, direction@).normal,
            material == spec_scan(spheres@.take(idx as int), origin@, direction@).material,
        decreases spheres@.len() - idx,
    {
        let s = spheres[idx];
        let (is_hit, t) = s.ray_intersect(origin, direction, 0);
        if is_hit && t < dist {
            dist = t;
            point = vadd(origin, vscale(direction, t));
            normal = vnormalize(vsub(point, s.center));
            material = s.material;
        }
        proof {
            lemma_take_succ(spheres@, idx as int);
        }
        idx = idx + 1;
    }
    proof {
        assert(spheres@.take(spheres@.len() as int) =~= spheres@);
    }
    HitRecord { hit: dist < horizon, point, normal, material }
}

/// Mirror reflection of the incident vector `i` about the normal `n`:
/// `i - n * 2 * (i . n)`.
pub open spec fn spec_reflect(i: V3, n: V3) -> V3 {
    spec_vsub(i, spec_vscale(spec_vscale(n, TWO as int), spec_vdot(i, n)))
}

/// Mirror reflection of the incident vector `i` about the normal `n`.
pub fn reflect(i: Vec3, n: Vec3) -> (r: Vec3)
    ensures
        r@ == spec_reflect(i@, n@),
{
    vsub(i, vscale(vscale(n, TWO), vdot(i, n)))
}

/// Origin for a secondary ray: the surface point pushed a little along the
/// normal, on the side the ray leaves toward, so that the ray does not
/// immediately re-hit its own surface.
pub open spec fn spec_bias_origin(point: V3, n: V3, toward: V3, bias: int) -> V3 {
    if spec_vdot(toward, n) < 0 {
        spec_vsub(point, spec_vscale(n, bias))
    } else {
        spec_vadd(point, spec_vscale(n, bias))
    }
}

fn bias_origin(point: Vec3, n: Vec3, toward: Vec3, bias: i64) -> (r: Vec3)
    ensures
        r@ == spec_bias_origin(point@, n@, toward@, bias as int),
{
    if vdot(toward, n) < 0 {
        vsub(point, vscale(n, bias))
    } else {
        vadd(point, vscale(n, bias))
    }
}

/// Direction from the surface point toward the light.
pub open spec fn spec_light_dir(light: Light, point: V3) -> V3 {
    spec_vnormalize(spec_vsub(light.position@, point))
}

/// Distance from the surface point to the light.
pub open spec fn spec_light_dist(light: Light, point: V3) -> int {
    spec_vnorm(spec_vsub(light.position@, point))
}

/// Whether some sphere occludes the light from the surface point: the
/// shadow ray (from the biased origin toward the light) hits the scene
/// strictly closer than the light itself.
pub open spec fn spec_shadowed(
    light: Light,
    point: V3,
    n: V3,
    spheres: Seq<Sphere>,
    horizon: int,
    bias: int,
) -> bool {
    let ldir = spec_light_dir(light, point);
    let sorig = spec_bias_origin(point, n, ldir, bias);
    let sh = spec_scene_intersect(sorig, ldir, spheres, horizon);
    sh.hit && spec_vnorm(spec_vsub(sh.point, sorig)) < spec_light_dist(light, point)
}

/// One light's contribution to the diffuse and specular intensities at a
/// surface point. An occluded light contributes nothing at all; an
/// unoccluded one contributes `intensity * clamp(ldir . n)` diffusely and
/// `intensity * clamp(reflect(ldir, n) . dir) ^ exponent` specularly.
pub open spec fn spec_light_contrib(
    light: Light,
    point: V3,
    n: V3,
    dir: V3,
    exponent: nat,
    spheres: Seq<Sphere>,
    horizon: int,
    bias: int,
) -> (int, int) {
    if spec_shadowed(light, point, n, spheres, horizon, bias) {
        (0, 0)
    } else {
        let ldir = spec_light_dir(light, point);
        let diffuse = spec_fx_mul(light.intensity as int, spec_clamp01(spec_vdot(ldir, n)));
        let power = spec_clamp01(spec_vdot(spec_reflect(ldir, n), dir));
        let specular = spec_fx_mul(spec_fx_pow(power, exponent), light.intensity as int);
        (diffuse, specular)
    }
}

/// Left-to-right accumulation of all lights' contributions.
pub open spec fn spec_light_accum(
    lights: Seq<Light>,
    point: V3,
    n: V3,
    dir: V3,
    exponent: nat,
    spheres: Seq<Sphere>,
    horizon: int,
    bias: int,
) -> (int, int)
    decreases lights.len(),
{
    if lights.len() == 0 {
        (0, 0)
    } else {
        let prev = spec_light_accum(
            lights.drop_last(),
            point,
            n,
            dir,
            exponent,
            spheres,
            horizon,
            bias,
        );
        let c = spec_light_contrib(lights.last(), point, n, dir, exponent, spheres, horizon, bias);
        (spec_fx_add(prev.0, c.0), spec_fx_add(prev.1, c.1))
    }
}

/// The color of a ray, per the Whitted recursion.
///
/// A ray that misses everything before the horizon, or arrives with the
/// recursion budget exhausted (`depth > max_recursion_depth`), is the
/// background color. Otherwise the color blends, through the material's
/// three albedo weights: the diffuse tint scaled by the accumulated
/// diffuse intensity, white scaled by the accumulated specular intensity,
/// and the recursively traced mirror-reflection color.
pub open spec fn spec_cast_ray(
    origin: V3,
    dir: V3,
    spheres: Seq<Sphere>,
    lights: Seq<Light>,
    depth: int,
    cfg: Config,
) -> V3
    decreases
            (if depth > cfg.max_recursion_depth {
                0int
            } else {
                cfg.max_recursion_depth - depth + 1
            }),
{
    let h = spec_scene_intersect(origin, dir, spheres, cfg.world_horizon as int);
    if !h.hit || depth > cfg.max_recursion_depth {
        cfg.background_color@
    } else {
        let reflect_dir = spec_reflect(dir, h.normal);
        let reflect_origin = spec_bias_origin(h.point, h.normal, reflect_dir, cfg.bias as int);
        let reflect_color = spec_cast_ray(reflect_origin, reflect_dir, spheres, lights, depth + 1, cfg);
        let acc = spec_light_accum(
            lights,
            h.point,
            h.normal,
            dir,
            h.material.specular_exponent as nat,
            spheres,
            cfg.world_horizon as int,
            cfg.bias as int,
        );
        let c1 = spec_vscale(spec_vscale(h.material.diffuse_color@, acc.0), h.material.albedo@.x);
        let c2 = spec_vadd(
            c1,
            spec_vscale(
                spec_vscale(V3 { x: ONE as int, y: ONE as int, z: ONE as int }, acc.1),
                h.material.albedo@.y,
            ),
        );
        spec_vadd(c2, spec_vscale(reflect_color, h.material.albedo@.z))
    }
}

/// Shade a ray against the scene, recursing on the mirror reflection up
/// to the configured depth. Pure: the result is exactly `spec_cast_ray`;
/// in particular a call past the recursion bound is exactly the
/// background color, whatever the geometry.
#[verifier::loop_isolation(false)]
#[verifier::rlimit(100)]
pub fn cast_ray(
    origin: Vec3,
    direction: Vec3,
    spheres: &Vec<Sphere>,
    lights: &Vec<Light>,
    depth: u32,
    cfg: &Config,
) -> (r: Vec3)
    requires
        cfg.max_recursion_depth < u32::MAX,
    ensures
        r@ == spec_cast_ray(origin@, direction@, spheres@, lights@, depth as int, *cfg),
        depth > cfg.max_recursion_depth ==> r == cfg.background_color,
    decreases
            (if depth > cfg.max_recursion_depth {
                0int
            } else {
                cfg.max_recursion_depth - depth + 1
            }),
{
    let h = scene_intersect(origin, direction, spheres, cfg.world_horizon);
    if !h.hit || depth > cfg.max_recursion_depth {
        return cfg.background_color;
    }
    let reflect_direction = reflect(direction, h.normal);
    let reflect_origin = bias_origin(h.point, h.normal, reflect_direction, cfg.bias);
    let reflect_color = cast_ray(reflect_origin, reflect_direction, spheres, lights, depth + 1, cfg);

    let ghost exponent = h.material.specular_exponent as nat;
    let mut diffuse_light_intensity: i64 = 0;
    let mut specular_light_intensity: i64 = 0;
    let mut k: usize = 0;
    while k < lights.len()
        invariant
            k <= lights@.len(),
            in_range(diffuse_light_intensity as int),
            in_range(specular_light_intensity as int),
            (diffuse_light_intensity as int, specular_light_intensity as int)
                == spec_light_accum(
                lights@.take(k as int),
                h.point@,
                h.normal@,
                direction@,
                exponent,
                spheres@,
                cfg.world_horizon as int,
                cfg.bias as int,
            ),
        decreases lights@.len() - k,
    {
        let light = lights[k];
        let lvec = vsub(light.position, h.point);
        let light_direction = vnormalize(lvec);
        let light_distance = vnorm(lvec);
        let shadow_origin = bias_origin(h.point, h.normal, light_direction, cfg.bias);
        let sh = scene_intersect(shadow_origin, light_direction, spheres, cfg.world_horizon);
        proof {
            lemma_take_succ(lights@, k as int);
        }
        if sh.hit && vnorm(vsub(sh.point, shadow_origin)) < light_distance {
            k = k + 1;
            continue;
        }
        let max_light = fx_clamp01(vdot(light_direction, h.normal));
        diffuse_light_intensity = fx_add(
            diffuse_light_intensity,
            fx_mul(light.intensity, max_light),
        );
        let minus_ref = vdot(reflect(light_direction, h.normal), direction);
        let power = fx_clamp01(minus_ref);
        specular_light_intensity = fx_add(
            specular_light_intensity,
            fx_mul(fx_pow(power, h.material.specular_exponent), light.intensity),
        );
        k = k + 1;
    }
    proof {
        assert(lights@.take(lights@.len() as int) =~= lights@);
    }
    let mut color = vscale(
        vscale(h.material.diffuse_color, diffuse_light_intensity),
        h.material.albedo.x,
    );
    color = vadd(
        color,
        vscale(vscale(Vec3 { x: ONE, y: ONE, z: ONE }, specular_light_intensity), h.material.albedo.y),
    );
    color = vadd(color, vscale(reflect_color, h.material.albedo.z));
    color
}

/// A linear color channel as a display byte: clamped into `[0, ONE]`
/// first, then scaled to `[0, 255]` (clamping, rather than truncating the
/// raw product, so that over-bright colors saturate instead of wrapping).
pub open spec fn spec_quantize(c: int) -> int {
    tdiv(spec_clamp01(c) * 255, SCALE as int)
}

/// A linear color channel as a display byte (see `spec_quantize`).
pub fn quantize_channel(c: i64) -> (r: u8)
    ensures
        r as int == spec_quantize(c as int),
{
    let cc = fx_clamp01(c);
    (((cc as u64) * 255) / 65536) as u8
}

/// Camera ray direction through the center of pixel `(i, j)`:
/// `x = (2*(i+0.5)/width - 1) * t * width/height`,
/// `y = -(2*(j+0.5)/height - 1) * t`, `z = -1`, normalized, where `t` is
/// the tangent of half the vertical field of view. The camera sits at the
/// origin and looks down the negative Z axis.
pub open spec fn spec_camera_dir(cfg: Config, i: int, j: int) -> V3 {
    let px = spec_fx_sub(
        spec_fx_div(spec_to_fx(2 * i + 1), spec_to_fx(cfg.width as int)),
        ONE as int,
    );
    let x = spec_fx_div(
        spec_fx_mul(spec_fx_mul(px, cfg.half_fov_tan as int), spec_to_fx(cfg.width as int)),
        spec_to_fx(cfg.height as int),
    );
    let py = spec_fx_sub(
        spec_fx_div(spec_to_fx(2 * j + 1), spec_to_fx(cfg.height as int)),
        ONE as int,
    );
    let y = spec_fx_mul(spec_fx_sub(0, py), cfg.half_fov_tan as int);
    spec_vnormalize(V3 { x, y, z: -(ONE as int) })
}

/// The shaded color of the pixel with row-major index `idx`.
pub open spec fn spec_pixel_color(
    cfg: Config,
    spheres: Seq<Sphere>,
    lights: Seq<Light>,
    idx: int,
) -> V3 {
    let i = idx % (cfg.width as int);
    let j = idx / (cfg.width as int);
    spec_cast_ray(
        V3 { x: 0, y: 0, z: 0 },
        spec_camera_dir(cfg, i, j),
        spheres,
        lights,
        0,
        cfg,
    )
}

/// The three display bytes of the pixel with row-major index `idx`.
pub open spec fn spec_pixel_bytes(
    cfg: Config,
    spheres: Seq<Sphere>,
    lights: Seq<Light>,
    idx: int,
) -> Seq<u8> {
    let c = spec_pixel_color(cfg, spheres, lights, idx);
    seq![
        spec_quantize(c.x) as u8,
        spec_quantize(c.y) as u8,
        spec_quantize(c.z) as u8,
    ]
}

/// The buffer of the first `n` pixels, in row-major order.
pub open spec fn spec_render_upto(
    cfg: Config,
    spheres: Seq<Sphere>,
    lights: Seq<Light>,
    n: int,
) -> Seq<u8>
    decreases n,
{
    if n <= 0 {
        Seq::empty()
    } else {
        spec_render_upto(cfg, spheres, lights, n - 1) + spec_pixel_bytes(
            cfg,
            spheres,
            lights,
            n - 1,
        )
    }
}

/// The whole frame: `width * height` pixels, three bytes each.
pub open spec fn spec_render(cfg: Config, spheres: Seq<Sphere>, lights: Seq<Light>) -> Seq<u8> {
    spec_render_upto(cfg, spheres, lights, cfg.width as int * cfg.height as int)
}

/// Render the scene into a row-major RGB byte buffer, shading every pixel
/// independently with a fresh primary ray at depth zero. Pure: the buffer
/// is exactly `spec_render`, so rendering the same scene twice with the
/// same configuration yields an identical buffer.
#[verifier::loop_isolation(false)]
pub fn render(cfg: &Config, spheres: &Vec<Sphere>, lights: &Vec<Light>) -> (r: Vec<u8>)
    requires
        cfg.wf(),
    ensures
        r@ == spec_render(*cfg, spheres@, lights@),
        r@.len() == cfg.width as int * cfg.height as int * 3,
{
    let width = cfg.width;
    let height = cfg.height;
    let mut buffer: Vec<u8> = Vec::new();
    let mut j: u32 = 0;
    while j < height
        invariant
            j <= height,
            buffer@ == spec_render_upto(*cfg, spheres@, lights@, j as int * width as int),
            buffer@.len() == 3 * (j as int * width as int),
        decreases height - j,
    {
        let mut i: u32 = 0;
        while i < width
            invariant
                i <= width,
                j < height,
                buffer@ == spec_render_upto(
                    *cfg,
                    spheres@,
                    lights@,
                    j as int * width as int + i as int,
                ),
                buffer@.len() == 3 * (j as int * width as int + i as int),
            decreases width - i,
        {
            proof {
                assert(j as int * width as int + i as int + 1 <= height as int * width as int)
                    by (nonlinear_arith)
                    requires
                        0 <= i as int,
                        (i as int) < width as int,
                        0 <= j as int,
                        (j as int) < height as int;
            }
            let xi: i64 = 2 * (i as i64) + 1;
            let px = fx_sub(fx_div(to_fx(xi), to_fx(width as i64)), ONE);
            let x = fx_div(
                fx_mul(fx_mul(px, cfg.half_fov_tan), to_fx(width as i64)),
                to_fx(height as i64),
            );
            let yj: i64 = 2 * (j as i64) + 1;
            let py = fx_sub(fx_div(to_fx(yj), to_fx(height as i64)), ONE);
            let y = fx_mul(fx_sub(0, py), cfg.half_fov_tan);
            let direction = vnormalize(Vec3 { x, y, z: -ONE });
            let color = cast_ray(Vec3::zero(), direction, spheres, lights, 0, cfg);
            buffer.push(quantize_channel(color.x));
            buffer.push(quantize_channel(color.y));
            buffer.push(quantize_channel(color.z));
            proof {
                let idx = j as int * width as int + i as int;
                lemma_fundamental_div_mod_converse(idx, width as int, j as int, i as int);
                assert(direction@ == spec_camera_dir(*cfg, idx % (width as int), idx / (
                width as int)));
                assert(buffer@ =~= spec_render_upto(*cfg, spheres@, lights@, idx + 1));
            }
            i = i + 1;
        }
        proof {
            assert((j + 1) as int * width as int == j as int * width as int + width as int)
                by (nonlinear_arith);
        }
        j = j + 1;
    }
    buffer
}

/// Render with a fail-fast configuration check: an invalid configuration
/// (zero-sized image, non-positive camera tangent or horizon, negative
/// bias, or a frame that cannot fit in memory) yields `None` before any
/// rendering work, a valid one the exact frame.
pub fn try_render(cfg: &Config, spheres: &Vec<Sphere>, lights: &Vec<Light>) -> (r: Option<
    Vec<u8>,
>)
    ensures
        r is Some <==> cfg.wf(),
        (r matches Some(b) ==> b@ == spec_render(*cfg, spheres@, lights@)),
{
    if cfg.is_wf() {
        Some(render(cfg, spheres, lights))
    } else {
        None
    }
}

} // verus!
