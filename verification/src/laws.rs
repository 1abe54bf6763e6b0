//! General properties of the engine, stated and proved over the spec-level
//! twins that the executable functions' contracts pin their results to.

use vstd::prelude::*;
use vstd::arithmetic::div_mod::{
    lemma_div_by_self, lemma_div_is_ordered, lemma_div_multiples_vanish, lemma_div_of0,
    lemma_div_pos_is_pos, lemma_fundamental_div_mod, lemma_mod_bound,
};
use crate::fixed::{
    in_range, lemma_sqrt_floor_bounds, spec_clamp01, spec_fx_mul, spec_fx_sqrt, spec_fx_sub,
    sqrt_floor, tdiv, MAXV, ONE, SCALE,
};
use crate::object::{spec_perp_dist2, spec_radius2, spec_ray_intersect, Light, Sphere};
use crate::render::{
    spec_cast_ray, spec_light_accum, spec_light_contrib, spec_quantize, spec_render, spec_scan,
    spec_scene_intersect, spec_shadowed, Config, FAR,
};
use crate::vec3::{spec_vadd, spec_vdot, spec_vnormalize, spec_vscale, spec_vsub, Vec3, V3};

verus! {

/// Rendering is deterministic: any two buffers rendered from the same
/// scene and configuration are identical — the frame is a pure function
/// of its inputs, with no hidden state.
pub proof fn lemma_render_deterministic(
    cfg: Config,
    spheres: Seq<Sphere>,
    lights: Seq<Light>,
    b1: Seq<u8>,
    b2: Seq<u8>,
)
    requires
        b1 == spec_render(cfg, spheres, lights),
        b2 == spec_render(cfg, spheres, lights),
    ensures
        b1 == b2,
{
}

/// A ray cast with the recursion budget already exhausted is exactly the
/// background color, regardless of the geometry and lights.
pub proof fn lemma_depth_exhausted_background(
    origin: V3,
    dir: V3,
    spheres: Seq<Sphere>,
    lights: Seq<Light>,
    depth: int,
    cfg: Config,
)
    requires
        depth > cfg.max_recursion_depth,
    ensures
        spec_cast_ray(origin, dir, spheres, lights, depth, cfg) == cfg.background_color@,
{
}

/// A light that is occluded from the surface point contributes exactly
/// nothing — neither diffuse nor specular intensity.
pub proof fn lemma_occluded_light_contributes_nothing(
    light: Light,
    point: V3,
    n: V3,
    dir: V3,
    exponent: nat,
    spheres: Seq<Sphere>,
    horizon: int,
    bias: int,
)
    requires
        spec_shadowed(light, point, n, spheres, horizon, bias),
    ensures
        spec_light_contrib(light, point, n, dir, exponent, spheres, horizon, bias) == (0int, 0int),
{
}

/// The accumulated intensities always stay in the saturated scalar range.
proof fn lemma_accum_in_range(
    lights: Seq<Light>,
    point: V3,
    n: V3,
    dir: V3,
    exponent: nat,
    spheres: Seq<Sphere>,
    horizon: int,
    bias: int,
)
    ensures
        in_range(spec_light_accum(lights, point, n, dir, exponent, spheres, horizon, bias).0),
        in_range(spec_light_accum(lights, point, n, dir, exponent, spheres, horizon, bias).1),
    decreases lights.len(),
{
    if lights.len() > 0 {
        lemma_accum_in_range(
            lights.drop_last(),
            point,
            n,
            dir,
            exponent,
            spheres,
            horizon,
            bias,
        );
    }
}

/// Adding an occluded light to the scene leaves the accumulated diffuse
/// and specular intensities unchanged: a fully shadowed light might as
/// well not be there.
pub proof fn lemma_occluded_light_drops_out(
    lights: Seq<Light>,
    light: Light,
    point: V3,
    n: V3,
    dir: V3,
    exponent: nat,
    spheres: Seq<Sphere>,
    horizon: int,
    bias: int,
)
    requires
        spec_shadowed(light, point, n, spheres, horizon, bias),
    ensures
        spec_light_accum(lights.push(light), point, n, dir, exponent, spheres, horizon, bias)
            == spec_light_accum(lights, point, n, dir, exponent, spheres, horizon, bias),
{
    lemma_accum_in_range(lights, point, n, dir, exponent, spheres, horizon, bias);
    assert(lights.push(light).drop_last() =~= lights);
    assert(lights.push(light).last() == light);
}

/// A ray that misses every sphere's bounding geometry — its perpendicular
/// distance from each center exceeds that sphere's radius — misses the
/// scene: the intersection reports no hit.
pub proof fn lemma_all_missed_no_hit(origin: V3, dir: V3, spheres: Seq<Sphere>, horizon: int)
    requires
        horizon <= MAXV,
        forall|k: int|
            0 <= k < spheres.len() ==> spec_perp_dist2(spheres[k], origin, dir) > spec_radius2(
                spheres[k],
            ),
    ensures
        !spec_scene_intersect(origin, dir, spheres, horizon).hit,
{
    lemma_scan_all_missed(origin, dir, spheres);
}

proof fn lemma_scan_all_missed(origin: V3, dir: V3, spheres: Seq<Sphere>)
    requires
        forall|k: int|
            0 <= k < spheres.len() ==> spec_perp_dist2(spheres[k], origin, dir) > spec_radius2(
                spheres[k],
            ),
    ensures
        spec_scan(spheres, origin, dir).dist == FAR as int,
    decreases spheres.len(),
{
    if spheres.len() > 0 {
        assert(forall|k: int|
            0 <= k < spheres.drop_last().len() ==> spheres.drop_last()[k] == spheres[k]);
        lemma_scan_all_missed(origin, dir, spheres.drop_last());
        assert(spec_perp_dist2(spheres.last(), origin, dir) > spec_radius2(spheres.last()));
    }
}

/// Of two spheres hit by the ray at the same distance, the earlier one in
/// the scene sequence supplies the hit's material: the scan only replaces
/// its candidate on a strictly closer hit.
pub proof fn lemma_tie_prefers_first(
    origin: V3,
    dir: V3,
    s1: Sphere,
    s2: Sphere,
    horizon: int,
    t: int,
)
    requires
        spec_ray_intersect(s1, origin, dir, 0) == (true, t),
        spec_ray_intersect(s2, origin, dir, 0) == (true, t),
        0 <= t < horizon,
        horizon <= MAXV,
    ensures
        spec_scene_intersect(origin, dir, seq![s1, s2], horizon).hit,
        spec_scene_intersect(origin, dir, seq![s1, s2], horizon).material == s1.material,
{
    reveal_with_fuel(spec_scan, 4);
    let s = seq![s1, s2];
    assert(s.drop_last() =~= seq![s1]);
    assert(seq![s1].drop_last() =~= Seq::<Sphere>::empty());
    assert(s.last() == s2);
    assert(seq![s1].last() == s1);
    assert(spec_scan(seq![s1], origin, dir).dist == t);
    assert(spec_scan(s, origin, dir).dist == t);
    assert(spec_scan(s, origin, dir).material == s1.material);
}

/// Every quantized color channel is a display byte: clamping before the
/// scale to 255 keeps the result in `[0, 255]` for any linear channel
/// value, however over-bright or negative.
pub proof fn lemma_quantize_in_byte_range(c: int)
    ensures
        0 <= spec_quantize(c) <= 255,
{
    let cc = spec_clamp01(c);
    lemma_div_pos_is_pos(cc * 255, SCALE as int);
    lemma_div_is_ordered(cc * 255, 16711680, SCALE as int);
}

/// A sphere that accepts the ray accepts it at a distance in `[0, MAXV]`.
proof fn lemma_ray_candidate_range(s: Sphere, origin: V3, dir: V3)
    ensures
        spec_ray_intersect(s, origin, dir, 0).0 ==> 0 <= spec_ray_intersect(s, origin, dir, 0).1
            <= MAXV as int,
{
}

/// The scene scan really is a nearest-hit minimum: no sphere accepts the
/// ray strictly closer than the scan's distance; when the scan accepted
/// anything, its distance, material and outward normal come from a sphere
/// that accepts the ray at exactly that distance, with the hit point on
/// the ray at that distance; and the distance stays at `FAR` precisely
/// when no sphere accepts the ray at all.
pub proof fn lemma_scan_is_nearest(origin: V3, dir: V3, spheres: Seq<Sphere>)
    ensures
        forall|k: int|
            0 <= k < spheres.len() && (#[trigger] spec_ray_intersect(
                spheres[k],
                origin,
                dir,
                0,
            )).0 ==> spec_scan(spheres, origin, dir).dist <= spec_ray_intersect(
                spheres[k],
                origin,
                dir,
                0,
            ).1,
        spec_scan(spheres, origin, dir).dist != FAR as int ==> spec_scan(
            spheres,
            origin,
            dir,
        ).point == spec_vadd(origin, spec_vscale(dir, spec_scan(spheres, origin, dir).dist)),
        spec_scan(spheres, origin, dir).dist != FAR as int ==> exists|k: int|
            0 <= k < spheres.len() && (#[trigger] spec_ray_intersect(spheres[k], origin, dir, 0)).0
                && spec_ray_intersect(spheres[k], origin, dir, 0).1 == spec_scan(
                spheres,
                origin,
                dir,
            ).dist && spheres[k].material == spec_scan(spheres, origin, dir).material && spec_scan(
                spheres,
                origin,
                dir,
            ).normal == spec_vnormalize(
                spec_vsub(spec_scan(spheres, origin, dir).point, spheres[k].center@),
            ),
        (spec_scan(spheres, origin, dir).dist == FAR as int) <==> (forall|k: int|
            0 <= k < spheres.len() ==> !(#[trigger] spec_ray_intersect(
                spheres[k],
                origin,
                dir,
                0,
            )).0),
    decreases spheres.len(),
{
    if spheres.len() > 0 {
        let prefix = spheres.drop_last();
        lemma_scan_is_nearest(origin, dir, prefix);
        assert(forall|k: int| 0 <= k < prefix.len() ==> prefix[k] == spheres[k]);
        let last = spheres.last();
        assert(last == spheres[spheres.len() - 1]);
        lemma_ray_candidate_range(last, origin, dir);
        let st = spec_scan(spheres, origin, dir);
        let prev = spec_scan(prefix, origin, dir);
        let res = spec_ray_intersect(last, origin, dir, 0);
        if res.0 && res.1 < prev.dist {
            assert(st.dist == res.1 && st.material == last.material);
            assert(spec_ray_intersect(spheres[spheres.len() - 1], origin, dir, 0).0);
        } else {
            assert(st == prev);
            if prev.dist != FAR as int {
                let i = choose|i: int|
                    0 <= i < prefix.len() && (#[trigger] spec_ray_intersect(
                        prefix[i],
                        origin,
                        dir,
                        0,
                    )).0 && spec_ray_intersect(prefix[i], origin, dir, 0).1 == prev.dist
                        && prefix[i].material == prev.material && prev.normal == spec_vnormalize(
                        spec_vsub(prev.point, prefix[i].center@),
                    );
                assert(0 <= i < spheres.len() && spec_ray_intersect(spheres[i], origin, dir, 0).0
                    && spec_ray_intersect(spheres[i], origin, dir, 0).1 == st.dist
                    && spheres[i].material == st.material && st.normal == spec_vnormalize(
                    spec_vsub(st.point, spheres[i].center@),
                ));
            }
        }
    }
}

/// Dividing an exact multiple of the scale back down recovers the factor.
proof fn lemma_tdiv_cancel(a: int)
    ensures
        tdiv(a * (SCALE as int), SCALE as int) == a,
{
    if a >= 0 {
        lemma_div_multiples_vanish(a, SCALE as int);
    } else {
        lemma_div_multiples_vanish(-a, SCALE as int);
    }
}

/// The fixed-point square of a value up to 2^30: its range and its exact
/// relation to the true square.
proof fn lemma_sq_scaled(v: int)
    requires
        0 <= v <= 1073741824,
    ensures
        0 <= tdiv(v * v, SCALE as int) <= MAXV,
        (SCALE as int) * tdiv(v * v, SCALE as int) <= v * v,
        v * v < (SCALE as int) * tdiv(v * v, SCALE as int) + (SCALE as int),
{
    assert(0 <= v * v <= 1152921504606846976) by (nonlinear_arith)
        requires
            0 <= v <= 1073741824;
    lemma_div_pos_is_pos(v * v, SCALE as int);
    lemma_div_is_ordered(v * v, 1152921504606846976, SCALE as int);
    lemma_fundamental_div_mod(v * v, SCALE as int);
    lemma_mod_bound(v * v, SCALE as int);
}

/// When the scaled square of `r` is divided down with quotient `q`, the
/// square root of `q * SCALE` lands within one step of `r` — provided `r`
/// is at least half a unit, so the scale cannot swallow the gap between
/// consecutive squares.
proof fn lemma_sqrt_near(q: int, r: int)
    requires
        0 <= q,
        0 <= r,
        2 * r - 1 >= SCALE as int,
        (SCALE as int) * q <= r * r,
        r * r < (SCALE as int) * q + (SCALE as int),
    ensures
        r - 1 <= sqrt_floor(q * (SCALE as int)) <= r,
{
    let sc = SCALE as int;
    let n = q * sc;
    assert(n == sc * q);
    lemma_sqrt_floor_bounds(n);
    let th = sqrt_floor(n);
    if th > r {
        assert(th * th >= (r + 1) * (r + 1)) by (nonlinear_arith)
            requires
                th >= r + 1,
                r >= 0;
        assert((r + 1) * (r + 1) > r * r) by (nonlinear_arith)
            requires
                r >= 0;
        assert(false);
    }
    if th < r - 1 {
        assert((th + 1) * (th + 1) <= (r - 1) * (r - 1)) by (nonlinear_arith)
            requires
                0 <= th + 1,
                th + 1 <= r - 1;
        assert((r - 1) * (r - 1) == r * r - 2 * r + 1) by (nonlinear_arith);
        assert(false);
    }
}

/// A ray aimed from outside a sphere straight at its center hits it, at
/// distance `d - radius` up to one fixed-point step, with the surface
/// normal pointing from the center back toward the ray origin.
///
/// Stated for a center displaced from the ray origin along the negative Z
/// axis (the geometry is rotation-symmetric), with coordinates up to 2^30
/// steps and a radius of at least one world unit, so that fixed-point
/// quantization cannot swallow the configuration.
pub proof fn lemma_head_on_hit(o: Vec3, s: Sphere, dir: V3, d: i64, horizon: i64)
    requires
        dir == (V3 { x: 0int, y: 0int, z: -(ONE as int) }),
        s.center.x == o.x,
        s.center.y == o.y,
        s.center.z as int == o.z as int - d as int,
        -1073741824 <= o.x as int <= 1073741824,
        -1073741824 <= o.y as int <= 1073741824,
        -1073741824 <= o.z as int <= 1073741824,
        SCALE as int <= s.radius as int <= 1073741824,
        (s.radius as int) < d as int <= 1073741824,
        (d as int) < horizon as int,
        horizon as int <= MAXV as int,
    ensures
        spec_ray_intersect(s, o@, dir, 0).0,
        d as int - s.radius as int <= spec_ray_intersect(s, o@, dir, 0).1,
        spec_ray_intersect(s, o@, dir, 0).1 <= d as int - s.radius as int + 1,
        spec_scene_intersect(o@, dir, seq![s], horizon as int).hit,
        spec_scene_intersect(o@, dir, seq![s], horizon as int).normal.x == 0,
        spec_scene_intersect(o@, dir, seq![s], horizon as int).normal.y == 0,
        spec_scene_intersect(o@, dir, seq![s], horizon as int).normal.z > 0,
{
    let sc = SCALE as int;
    let dd = d as int;
    let r = s.radius as int;
    let oz = o.z as int;

    // The center seen from the ray origin, and the projection onto the ray.
    let l = spec_vsub(s.center@, o@);
    assert(l.x == 0);
    assert(l.y == 0);
    assert(l.z == -dd);

    lemma_div_of0(sc);
    assert(spec_fx_mul(0, 0) == 0);
    lemma_tdiv_cancel(dd);
    assert(l.z * dir.z == dd * sc) by (nonlinear_arith)
        requires
            l.z == -dd,
            dir.z == -sc;
    assert(spec_fx_mul(l.z, dir.z) == dd);
    let tca = spec_vdot(l, dir);
    assert(tca == dd);

    // The perpendicular-distance term vanishes exactly: both squared terms
    // round identically.
    lemma_sq_scaled(dd);
    let q = tdiv(dd * dd, sc);
    assert(l.z * l.z == dd * dd) by (nonlinear_arith)
        requires
            l.z == -dd;
    assert(spec_fx_mul(l.z, l.z) == q);
    assert(spec_vdot(l, l) == q);
    assert(spec_fx_mul(tca, tca) == q);
    assert(spec_perp_dist2(s, o@, dir) == 0);

    // The squared radius, and its half-chord root within one step of r.
    lemma_sq_scaled(r);
    let rr = tdiv(r * r, sc);
    assert(spec_radius2(s) == rr);
    assert(sc * sc <= r * r) by (nonlinear_arith)
        requires
            0 < sc <= r;
    lemma_div_is_ordered(sc * sc, r * r, sc);
    lemma_div_multiples_vanish(sc, sc);
    assert(rr >= sc);
    assert(spec_fx_sub(rr, 0) == rr);
    lemma_sqrt_near(rr, r);
    let th = sqrt_floor(rr * sc);
    assert(spec_fx_sqrt(rr) == th);
    assert(r - 1 <= th <= r);

    // The accepted distance: the near root, within one step of d - r.
    let t0 = spec_fx_sub(dd, th);
    assert(t0 == dd - th);
    assert(dd - r <= t0 <= dd - r + 1);
    assert(t0 >= 1);
    let res = spec_ray_intersect(s, o@, dir, 0);
    assert(res.0 && res.1 == t0);

    // The singleton scene accepts that hit.
    reveal_with_fuel(spec_scan, 3);
    let sseq = seq![s];
    assert(sseq.drop_last() =~= Seq::<Sphere>::empty());
    assert(sseq.last() == s);
    let st = spec_scan(sseq, o@, dir);
    assert(st.dist == t0);
    assert(st.dist < horizon as int);

    // The hit point sits on the segment from the origin to the center,
    // a distance kk = d - t0 in front of the center.
    lemma_tdiv_cancel(-t0);
    let pt = spec_vadd(o@, spec_vscale(dir, t0));
    assert(pt.x == o.x as int);
    assert(pt.y == o.y as int);
    assert(pt.z == oz - t0);
    assert(st.point == pt);
    let vv = spec_vsub(pt, s.center@);
    let kk = dd - t0;
    assert(vv.x == 0);
    assert(vv.y == 0);
    assert(vv.z == kk);
    assert(kk == th);
    assert(sc - 1 <= kk <= r);

    // Its length is positive, and no longer than kk itself, so the
    // normalized z component is a positive scalar.
    lemma_sq_scaled(kk);
    let w = tdiv(kk * kk, sc);
    assert(spec_fx_mul(kk, kk) == w);
    assert(spec_vdot(vv, vv) == w);
    assert((sc - 1) * (sc - 1) <= kk * kk) by (nonlinear_arith)
        requires
            0 <= sc - 1,
            sc - 1 <= kk;
    lemma_div_is_ordered((sc - 1) * (sc - 1), kk * kk, sc);
    assert((sc - 1) * (sc - 1) == 4294836225);
    assert(w >= 65534);
    lemma_sqrt_floor_bounds(w * sc);
    let nn = sqrt_floor(w * sc);
    assert(w * sc >= 1) by (nonlinear_arith)
        requires
            w >= 1,
            sc >= 1;
    assert(nn >= 1) by {
        if nn == 0 {
            assert((nn + 1) * (nn + 1) == 1) by (nonlinear_arith)
                requires
                    nn == 0;
            assert(false);
        }
    };
    assert(nn * nn <= sc * w);
    assert(nn <= kk) by (nonlinear_arith)
        requires
            nn >= 0,
            kk >= 0,
            nn * nn <= kk * kk;
    assert(spec_fx_sqrt(w) == nn);

    let norm_v = spec_vnormalize(vv);
    lemma_div_of0(nn);
    assert(norm_v.x == 0);
    assert(norm_v.y == 0);
    assert(kk <= kk * sc) by (nonlinear_arith)
        requires
            kk >= 0,
            sc >= 1;
    lemma_div_is_ordered(nn, kk * sc, nn);
    lemma_div_by_self(nn);
    assert(tdiv(kk * sc, nn) >= 1);
    assert(norm_v.z >= 1);
    assert(st.normal == norm_v);
}

} // verus!
