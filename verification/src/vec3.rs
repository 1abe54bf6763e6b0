//! Vectors of three fixed-point scalars, with their mathematical view.

use vstd::prelude::*;
use crate::fixed::{
    fx_add, fx_div, fx_mul, fx_sqrt, fx_sub, spec_fx_add, spec_fx_div, spec_fx_mul, spec_fx_sqrt,
    spec_fx_sub,
};

verus! {

/// An ordered triple of fixed-point scalars: a point, a direction, or a
/// linear (unclamped) color.
#[derive(Clone, Copy, PartialEq, Eq, Structural, Debug)]
pub struct Vec3 {
    pub x: i64,
    pub y: i64,
    pub z: i64,
}

/// The mathematical view of a `Vec3`: three unbounded integers.
pub ghost struct V3 {
    pub x: int,
    pub y: int,
    pub z: int,
}

impl View for Vec3 {
    type V = V3;

    open spec fn view(&self) -> V3 {
        V3 { x: self.x as int, y: self.y as int, z: self.z as int }
    }
}

impl Vec3 {
    pub fn new(x: i64, y: i64, z: i64) -> (r: Vec3)
        ensures
            r@ == (V3 { x: x as int, y: y as int, z: z as int }),
    {
        Vec3 { x, y, z }
    }

    pub fn zero() -> (r: Vec3)
        ensures
            r@ == (V3 { x: 0int, y: 0int, z: 0int }),
    {
        Vec3 { x: 0, y: 0, z: 0 }
    }
}

pub open spec fn spec_vadd(a: V3, b: V3) -> V3 {
    V3 { x: spec_fx_add(a.x, b.x), y: spec_fx_add(a.y, b.y), z: spec_fx_add(a.z, b.z) }
}

pub open spec fn spec_vsub(a: V3, b: V3) -> V3 {
    V3 { x: spec_fx_sub(a.x, b.x), y: spec_fx_sub(a.y, b.y), z: spec_fx_sub(a.z, b.z) }
}

pub open spec fn spec_vscale(v: V3, s: int) -> V3 {
    V3 { x: spec_fx_mul(v.x, s), y: spec_fx_mul(v.y, s), z: spec_fx_mul(v.z, s) }
}

pub open spec fn spec_vdot(a: V3, b: V3) -> int {
    spec_fx_add(spec_fx_add(spec_fx_mul(a.x, b.x), spec_fx_mul(a.y, b.y)), spec_fx_mul(a.z, b.z))
}

/// Euclidean length of a vector, with the fixed-point rounding of
/// `spec_fx_sqrt`; never negative.
pub open spec fn spec_vnorm(v: V3) -> int {
    spec_fx_sqrt(spec_vdot(v, v))
}

/// Direction of a vector: each component divided by the length. A vector
/// whose length rounds to zero is returned unchanged — callers treat such
/// degenerate geometry explicitly.
pub open spec fn spec_vnormalize(v: V3) -> V3 {
    let n = spec_vnorm(v);
    if n <= 0 {
        v
    } else {
        V3 { x: spec_fx_div(v.x, n), y: spec_fx_div(v.y, n), z: spec_fx_div(v.z, n) }
    }
}

/// Component-wise vector addition.
pub fn vadd(a: Vec3, b: Vec3) -> (r: Vec3)
    ensures
        r@ == spec_vadd(a@, b@),
{
    Vec3 { x: fx_add(a.x, b.x), y: fx_add(a.y, b.y), z: fx_add(a.z, b.z) }
}

/// Component-wise vector subtraction.
pub fn vsub(a: Vec3, b: Vec3) -> (r: Vec3)
    ensures
        r@ == spec_vsub(a@, b@),
{
    Vec3 { x: fx_sub(a.x, b.x), y: fx_sub(a.y, b.y), z: fx_sub(a.z, b.z) }
}

/// A vector scaled by a scalar.
pub fn vscale(v: Vec3, s: i64) -> (r: Vec3)
    ensures
        r@ == spec_vscale(v@, s as int),
{
    Vec3 { x: fx_mul(v.x, s), y: fx_mul(v.y, s), z: fx_mul(v.z, s) }
}

/// Dot product.
pub fn vdot(a: Vec3, b: Vec3) -> (r: i64)
    ensures
        r as int == spec_vdot(a@, b@),
{
    fx_add(fx_add(fx_mul(a.x, b.x), fx_mul(a.y, b.y)), fx_mul(a.z, b.z))
}

/// Euclidean length.
pub fn vnorm(v: Vec3) -> (r: i64)
    ensures
        r as int == spec_vnorm(v@),
        r >= 0,
{
    fx_sqrt(vdot(v, v))
}

/// Direction of a vector (see `spec_vnormalize` for the degenerate case).
pub fn vnormalize(v: Vec3) -> (r: Vec3)
    ensures
        r@ == spec_vnormalize(v@),
{
    let n = vnorm(v);
    if n <= 0 {
        v
    } else {
        Vec3 { x: fx_div(v.x, n), y: fx_div(v.y, n), z: fx_div(v.z, n) }
    }
}

} // verus!
