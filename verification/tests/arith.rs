//! Exact-value tests for the fixed-point scalar and vector operations and
//! the raster buffer.

use raytracer::fixed::{
    fx_add, fx_clamp01, fx_div, fx_mul, fx_pow, fx_sqrt, fx_sub, to_fx, MAXV, ONE,
};
use raytracer::image::Image;
use raytracer::render::quantize_channel;
use raytracer::vec3::{vadd, vdot, vnorm, vnormalize, vscale, vsub, Vec3};

#[test]
fn add_and_sub_exact() {
    assert_eq!(fx_add(1, 2), 3);
    assert_eq!(fx_sub(5, 9), -4);
    assert_eq!(fx_add(ONE, ONE), 131072);
}

#[test]
fn add_saturates_at_range_bounds() {
    assert_eq!(fx_add(MAXV, MAXV), MAXV);
    assert_eq!(fx_sub(-MAXV, MAXV), -MAXV);
    assert_eq!(fx_add(i64::MAX, i64::MAX), MAXV);
    assert_eq!(fx_sub(i64::MIN, 1), -MAXV);
}

#[test]
fn mul_exact_and_truncating_toward_zero() {
    // 1.5 * 0.5 == 0.75
    assert_eq!(fx_mul(98304, 32768), 49152);
    assert_eq!(fx_mul(-98304, 32768), -49152);
    // the smallest negative product truncates toward zero, as floats do
    assert_eq!(fx_mul(-1, 1), 0);
    assert_eq!(fx_mul(ONE, ONE), ONE);
    assert_eq!(fx_mul(7, 0), 0);
}

#[test]
fn div_exact_zero_divisor_and_signs() {
    assert_eq!(fx_div(ONE, 131072), 32768);
    assert_eq!(fx_div(-ONE, 131072), -32768);
    assert_eq!(fx_div(ONE, -ONE), -ONE);
    assert_eq!(fx_div(12345, 0), 0);
    // -0.0001526.. / 1 truncates toward zero
    assert_eq!(fx_div(-1, ONE), -1);
}

#[test]
fn sqrt_exact_values() {
    assert_eq!(fx_sqrt(4 * ONE), 2 * ONE);
    assert_eq!(fx_sqrt(25 * ONE), 5 * ONE);
    assert_eq!(fx_sqrt(ONE), ONE);
    // sqrt(2) rounded down to the scalar grid
    assert_eq!(fx_sqrt(2 * ONE), 92681);
    assert_eq!(fx_sqrt(0), 0);
    assert_eq!(fx_sqrt(-5), 0);
}

#[test]
fn pow_exact_values() {
    assert_eq!(fx_pow(32768, 0), ONE);
    assert_eq!(fx_pow(32768, 1), 32768);
    assert_eq!(fx_pow(32768, 2), 16384);
    assert_eq!(fx_pow(ONE, 1425), ONE);
    assert_eq!(fx_pow(0, 3), 0);
}

#[test]
fn clamp01_cases() {
    assert_eq!(fx_clamp01(-3), 0);
    assert_eq!(fx_clamp01(123), 123);
    assert_eq!(fx_clamp01(ONE), ONE);
    assert_eq!(fx_clamp01(ONE + 1), ONE);
}

#[test]
fn to_fx_scales_whole_units() {
    assert_eq!(to_fx(5), 327680);
    assert_eq!(to_fx(-3), -196608);
    assert_eq!(to_fx(0), 0);
}

#[test]
fn vector_componentwise_ops() {
    let a = Vec3::new(ONE, 2 * ONE, -ONE);
    let b = Vec3::new(ONE, -ONE, ONE);
    assert_eq!(vadd(a, b), Vec3::new(2 * ONE, ONE, 0));
    assert_eq!(vsub(a, b), Vec3::new(0, 3 * ONE, -2 * ONE));
    assert_eq!(vscale(a, 32768), Vec3::new(32768, ONE, -32768));
}

#[test]
fn dot_norm_and_normalize_exact() {
    let v = Vec3::new(3 * ONE, 4 * ONE, 0);
    assert_eq!(vdot(v, v), 25 * ONE);
    assert_eq!(vnorm(v), 5 * ONE);
    assert_eq!(vnormalize(Vec3::new(0, 0, -5 * ONE)), Vec3::new(0, 0, -ONE));
    // a vector whose length rounds to zero is handed back unchanged
    assert_eq!(vnormalize(Vec3::zero()), Vec3::zero());
    assert_eq!(vnormalize(Vec3::new(1, 0, 0)), Vec3::new(1, 0, 0));
}

#[test]
fn quantize_clamps_instead_of_wrapping() {
    assert_eq!(quantize_channel(0), 0);
    assert_eq!(quantize_channel(-5 * ONE), 0);
    assert_eq!(quantize_channel(ONE), 255);
    // an over-bright channel saturates at 255 rather than wrapping
    assert_eq!(quantize_channel(2 * ONE), 255);
    assert_eq!(quantize_channel(32768), 127);
    assert_eq!(quantize_channel(13107), 50);
}

#[test]
fn image_new_is_black_with_exact_size() {
    let img = Image::new(4, 3);
    assert_eq!(img.width, 4);
    assert_eq!(img.height, 3);
    assert_eq!(img.data.len(), 4 * 3 * 3);
    assert!(img.data.iter().all(|&b| b == 0));
}

#[test]
fn image_set_pixel_writes_three_bytes() {
    let mut img = Image::new(4, 3);
    img.set_pixel(2, 1, vec![10, 20, 30]);
    let offset = (1 * 4 + 2) * 3;
    assert_eq!(img.data[offset], 10);
    assert_eq!(img.data[offset + 1], 20);
    assert_eq!(img.data[offset + 2], 30);
    // everything else is untouched
    for k in 0..img.data.len() {
        if k < offset || k > offset + 2 {
            assert_eq!(img.data[k], 0);
        }
    }
}
