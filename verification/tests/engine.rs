//! Scenario tests for the intersection, shading and rendering pipeline.

use raytracer::fixed::ONE;
use raytracer::object::{Light, Material, Sphere};
use raytracer::render::{cast_ray, render, scene_intersect, try_render, Config};
use raytracer::vec3::Vec3;

fn test_config() -> Config {
    Config {
        width: 2,
        height: 2,
        half_fov_tan: ONE,  // a 90 degree vertical field of view
        max_recursion_depth: 6,
        background_color: Vec3::new(13107, 45875, ONE),
        world_horizon: 1000 * ONE,
        bias: 66,  // about 1e-3 world units
    }
}

fn matte(diffuse: Vec3) -> Material {
    Material::new(Vec3::new(ONE, 0, 0), diffuse, 10)
}

#[test]
fn head_on_ray_hits_at_distance_minus_radius() {
    // A sphere five units down the axis, radius one: the head-on ray hits
    // at distance four, and the normal points back at the origin.
    let s = Sphere::new(Vec3::new(0, 0, -5 * ONE), ONE, matte(Vec3::new(ONE, 0, 0)));
    let (hit, t) = s.ray_intersect(Vec3::zero(), Vec3::new(0, 0, -ONE), 0);
    assert!(hit);
    assert_eq!(t, 4 * ONE);

    let h = scene_intersect(Vec3::zero(), Vec3::new(0, 0, -ONE), &vec![s], 1000 * ONE);
    assert!(h.hit);
    assert_eq!(h.point, Vec3::new(0, 0, -4 * ONE));
    assert_eq!(h.normal, Vec3::new(0, 0, ONE));
    assert_eq!(h.material, s.material);
}

#[test]
fn perpendicular_miss_reports_no_hit() {
    // The center sits three units off the ray line with radius one.
    let s = Sphere::new(Vec3::new(0, 3 * ONE, -5 * ONE), ONE, matte(Vec3::new(ONE, 0, 0)));
    let (hit, _) = s.ray_intersect(Vec3::zero(), Vec3::new(0, 0, -ONE), 0);
    assert!(!hit);
    let h = scene_intersect(Vec3::zero(), Vec3::new(0, 0, -ONE), &vec![s], 1000 * ONE);
    assert!(!h.hit);
}

#[test]
fn sphere_behind_ray_reports_no_hit() {
    let s = Sphere::new(Vec3::new(0, 0, 5 * ONE), ONE, matte(Vec3::new(ONE, 0, 0)));
    let h = scene_intersect(Vec3::zero(), Vec3::new(0, 0, -ONE), &vec![s], 1000 * ONE);
    assert!(!h.hit);
}

#[test]
fn ray_from_inside_hits_far_wall() {
    let s = Sphere::new(Vec3::new(0, 0, 0), 2 * ONE, matte(Vec3::new(ONE, 0, 0)));
    let (hit, t) = s.ray_intersect(Vec3::zero(), Vec3::new(0, 0, -ONE), 0);
    assert!(hit);
    assert_eq!(t, 2 * ONE);
}

#[test]
fn equidistant_spheres_keep_the_earlier_material() {
    let red = matte(Vec3::new(ONE, 0, 0));
    let blue = matte(Vec3::new(0, 0, ONE));
    let first = Sphere::new(Vec3::new(0, 0, -5 * ONE), ONE, red);
    let second = Sphere::new(Vec3::new(0, 0, -5 * ONE), ONE, blue);
    let h = scene_intersect(
        Vec3::zero(),
        Vec3::new(0, 0, -ONE),
        &vec![first, second],
        1000 * ONE,
    );
    assert!(h.hit);
    assert_eq!(h.material, red);
    // and with the scene order swapped, the other one wins
    let h2 = scene_intersect(
        Vec3::zero(),
        Vec3::new(0, 0, -ONE),
        &vec![second, first],
        1000 * ONE,
    );
    assert_eq!(h2.material, blue);
}

#[test]
fn exhausted_depth_returns_background_exactly() {
    let cfg = test_config();
    let spheres = vec![Sphere::new(Vec3::new(0, 0, -5 * ONE), ONE, matte(Vec3::new(ONE, 0, 0)))];
    let lights = vec![Light::new(Vec3::zero(), ONE)];
    let c = cast_ray(
        Vec3::zero(),
        Vec3::new(0, 0, -ONE),
        &spheres,
        &lights,
        cfg.max_recursion_depth + 1,
        &cfg,
    );
    assert_eq!(c, cfg.background_color);
}

#[test]
fn lit_sphere_head_on_shades_to_its_diffuse_color() {
    // Light at the camera, diffuse-only albedo, head-on hit: the diffuse
    // intensity is exactly one, so the color is exactly the tint.
    let cfg = test_config();
    let tint = Vec3::new(39321, 6553, 13107);
    let spheres = vec![Sphere::new(Vec3::new(0, 0, -5 * ONE), ONE, matte(tint))];
    let lights = vec![Light::new(Vec3::zero(), ONE)];
    let c = cast_ray(Vec3::zero(), Vec3::new(0, 0, -ONE), &spheres, &lights, 0, &cfg);
    assert_eq!(c, tint);
}

#[test]
fn two_by_two_corner_rays_miss_and_give_background() {
    // With a 90 degree field of view and a 2x2 image, all four rays leave
    // diagonally and miss the small on-axis sphere; every pixel is the
    // quantized background.
    let cfg = test_config();
    let spheres = vec![Sphere::new(Vec3::new(0, 0, -5 * ONE), ONE, matte(Vec3::new(ONE, 0, 0)))];
    let lights = vec![Light::new(Vec3::zero(), ONE)];
    let buf = render(&cfg, &spheres, &lights);
    assert_eq!(buf.len(), 2 * 2 * 3);
    for p in 0..4 {
        assert_eq!(buf[p * 3], 50);
        assert_eq!(buf[p * 3 + 1], 178);
        assert_eq!(buf[p * 3 + 2], 255);
    }
    // while the center-facing ray does report a hit
    let h = scene_intersect(Vec3::zero(), Vec3::new(0, 0, -ONE), &spheres, cfg.world_horizon);
    assert!(h.hit);
}

#[test]
fn occluder_blocks_the_light_and_removing_it_restores_the_shading() {
    let cfg = test_config();
    let target = Sphere::new(Vec3::new(0, 0, -5 * ONE), ONE, matte(Vec3::new(ONE, 0, 0)));
    // a small sphere strictly between the hit point (0,0,-4) and the light
    let occluder = Sphere::new(
        Vec3::new(0, 3 * ONE / 2, -5 * ONE / 2),
        ONE / 2,
        matte(Vec3::new(0, ONE, 0)),
    );
    let light = Light::new(Vec3::new(0, 3 * ONE, -ONE), ONE);

    let shadowed = cast_ray(
        Vec3::zero(),
        Vec3::new(0, 0, -ONE),
        &vec![target, occluder],
        &vec![light],
        0,
        &cfg,
    );
    let open = cast_ray(
        Vec3::zero(),
        Vec3::new(0, 0, -ONE),
        &vec![target],
        &vec![light],
        0,
        &cfg,
    );
    // fully occluded: no light reaches the point, and with a diffuse-only
    // albedo the color is exactly zero
    assert_eq!(shadowed, Vec3::zero());
    // removing the occluder changes the result
    assert_ne!(open, shadowed);
    assert!(open.x > 0);
}

#[test]
fn mirror_sphere_shows_the_other_sphere_not_itself() {
    // A pure mirror (albedo puts all weight on reflection) facing a red
    // matte sphere behind the camera: the mirror's rendered color is the
    // red sphere's shaded color, not the mirror's own tint.
    let cfg = test_config();
    let mirror_tint = Vec3::new(ONE, ONE, 0);
    let red_tint = Vec3::new(58982, 6553, 0);
    let mirror = Sphere::new(
        Vec3::new(0, 0, -6 * ONE),
        ONE,
        Material::new(Vec3::new(0, 0, ONE), mirror_tint, 1425),
    );
    let red = Sphere::new(Vec3::new(0, 0, 4 * ONE), ONE, matte(red_tint));
    let lights = vec![Light::new(Vec3::zero(), ONE)];
    let c = cast_ray(
        Vec3::zero(),
        Vec3::new(0, 0, -ONE),
        &vec![mirror, red],
        &lights,
        0,
        &cfg,
    );
    assert_eq!(c, red_tint);
    assert_ne!(c, mirror_tint);
}

#[test]
fn rendering_twice_yields_identical_buffers() {
    let cfg = test_config();
    let spheres = vec![
        Sphere::new(Vec3::new(-ONE, 0, -8 * ONE), ONE, matte(Vec3::new(ONE, 0, 0))),
        Sphere::new(
            Vec3::new(ONE, ONE / 2, -6 * ONE),
            ONE / 2,
            Material::new(Vec3::new(0, 0, ONE), Vec3::new(ONE, ONE, ONE), 1425),
        ),
    ];
    let lights = vec![
        Light::new(Vec3::new(-3 * ONE, 3 * ONE, 0), 3 * ONE / 2),
        Light::new(Vec3::new(3 * ONE, -ONE, -2 * ONE), ONE),
    ];
    let first = render(&cfg, &spheres, &lights);
    let second = render(&cfg, &spheres, &lights);
    assert_eq!(first, second);
}

#[test]
fn over_bright_pixel_saturates_to_white() {
    // A strong light on a white diffuse sphere drives the linear color
    // past one; the written channel clamps to 255 instead of wrapping.
    let mut cfg = test_config();
    cfg.width = 1;
    cfg.height = 1;
    let spheres = vec![
        Sphere::new(Vec3::new(0, 0, -5 * ONE), ONE, matte(Vec3::new(ONE, ONE, ONE))),
    ];
    let lights = vec![Light::new(Vec3::zero(), 4 * ONE)];
    let buf = render(&cfg, &spheres, &lights);
    assert_eq!(buf, vec![255, 255, 255]);
}

#[test]
fn invalid_configuration_fails_fast() {
    let mut cfg = test_config();
    cfg.width = 0;
    let spheres = vec![Sphere::new(Vec3::new(0, 0, -5 * ONE), ONE, matte(Vec3::new(ONE, 0, 0)))];
    let lights = vec![Light::new(Vec3::zero(), ONE)];
    assert!(try_render(&cfg, &spheres, &lights).is_none());

    let mut bad_fov = test_config();
    bad_fov.half_fov_tan = 0;
    assert!(try_render(&bad_fov, &spheres, &lights).is_none());

    let good = try_render(&test_config(), &spheres, &lights);
    assert_eq!(good.unwrap(), render(&test_config(), &spheres, &lights));
}

#[test]
fn material_constructor_and_default() {
    let m = Material::new(Vec3::new(1, 2, 3), Vec3::new(4, 5, 6), 7);
    assert_eq!(m.albedo, Vec3::new(1, 2, 3));
    assert_eq!(m.diffuse_color, Vec3::new(4, 5, 6));
    assert_eq!(m.specular_exponent, 7);

    let d = Material::default();
    assert_eq!(d.diffuse_color, Vec3::new(ONE, 0, 0));
    assert_eq!(d.albedo, Vec3::new(ONE, 0, 0));
    assert_eq!(d.specular_exponent, 0);
}

#[test]
fn sphere_and_light_constructors_keep_fields() {
    let m = Material::default();
    let s = Sphere::new(Vec3::new(1, 2, 3), 9, m);
    assert_eq!(s.center, Vec3::new(1, 2, 3));
    assert_eq!(s.radius, 9);
    assert_eq!(s.material, m);
    let l = Light::new(Vec3::new(7, 8, 9), 11);
    assert_eq!(l.position, Vec3::new(7, 8, 9));
    assert_eq!(l.intensity, 11);
}
