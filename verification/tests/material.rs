use pathtracer::arith::Arithmetic;
use pathtracer::material::{
    ball_candidate, generate_half_sphere_ray, half_sphere_ray, reflection, reflection_coefficient,
    refraction, Color, LightRay, Material, Sampler,
};
use pathtracer::math::{Point, Ray, Vector};
use pathtracer::scalar::Scalar;

struct Ieee;

fn s(x: f32) -> Scalar {
    Scalar::from_bits(x.to_bits())
}

fn f(x: Scalar) -> f32 {
    f32::from_bits(x.to_bits())
}

impl Arithmetic for Ieee {
    fn sum(a: Scalar, b: Scalar) -> Scalar {
        s(f(a) + f(b))
    }
    fn difference(a: Scalar, b: Scalar) -> Scalar {
        s(f(a) - f(b))
    }
    fn product(a: Scalar, b: Scalar) -> Scalar {
        s(f(a) * f(b))
    }
    fn quotient(a: Scalar, b: Scalar) -> Scalar {
        s(f(a) / f(b))
    }
    fn square_root(a: Scalar) -> Scalar {
        s(f(a).sqrt())
    }
    fn tangent(a: Scalar) -> Scalar {
        s(f(a).tan())
    }
    fn power(a: Scalar, n: i32) -> Scalar {
        s(f(a).powi(n))
    }
    fn from_count(n: usize) -> Scalar {
        s(n as f32)
    }
}

fn vector(x: f32, y: f32, z: f32) -> Vector {
    Vector { x: s(x), y: s(y), z: s(z) }
}

fn point(x: f32, y: f32, z: f32) -> Point {
    Point { x: s(x), y: s(y), z: s(z) }
}

fn color(r: f32, g: f32, b: f32) -> Color {
    Color { red: s(r), green: s(g), blue: s(b) }
}

fn channels(c: Color) -> (f32, f32, f32) {
    (f(c.red), f(c.green), f(c.blue))
}

fn coords(v: Vector) -> (f32, f32, f32) {
    (f(v.x), f(v.y), f(v.z))
}

/// A sampler that plays back what it was given and counts what was asked.
struct Script {
    uniforms: Vec<f32>,
    balls: Vec<Vector>,
    uniform_calls: usize,
    ball_calls: usize,
}

impl Script {
    fn new(uniforms: &[f32], balls: &[Vector]) -> Script {
        Script { uniforms: uniforms.to_vec(), balls: balls.to_vec(), uniform_calls: 0, ball_calls: 0 }
    }
}

impl Sampler for Script {
    fn uniform(&mut self) -> Scalar {
        let u = self.uniforms[self.uniform_calls];
        self.uniform_calls += 1;
        s(u)
    }
    fn in_unit_ball(&mut self) -> Vector {
        let v = self.balls[self.ball_calls];
        self.ball_calls += 1;
        v
    }
    fn in_unit_disk(&mut self) -> (Scalar, Scalar) {
        (s(0.0), s(0.0))
    }
}

fn incoming() -> LightRay {
    LightRay {
        ray: Ray { origin: point(0.0, 0.0, 5.0), direction: vector(0.0, 0.0, -1.0) },
        light: color(0.5, 0.25, 1.0),
        ior: s(1.0),
        count: 3,
        done: false,
    }
}

#[test]
fn refraction_straight_test() {
    let in_direction = vector(1., 0., 0.);
    let normal = vector(-1., 0., 0.);
    let res = refraction::<Ieee>(s(1.), s(1.5), in_direction, normal);
    assert_eq!(1., f(res.x));
    assert_eq!(0., f(res.y));
    assert_eq!(0., f(res.z));
}

#[test]
fn refraction_straight_test_2() {
    let in_direction = vector(1., 0., 0.);
    let normal = vector(-1., 0., 0.);
    let res = refraction::<Ieee>(s(1.5), s(1.0), in_direction, normal);
    assert_eq!(1., f(res.x));
    assert_eq!(0., f(res.y));
    assert_eq!(0., f(res.z));
}

#[test]
fn refraction_angled() {
    let in_direction = vector(1., 1., 0.).normalize::<Ieee>();
    let normal = vector(-1., 0., 0.);
    let res = refraction::<Ieee>(s(1.0), s(1.5), in_direction, normal);
    assert!(f(res.x) > 0.);
    assert!(f(res.y) < f(in_direction.y));
}

#[test]
fn refaction_total_reflection() {
    let in_direction = vector(1., 1., 0.).normalize::<Ieee>();
    let normal = vector(-1., 0., 0.);
    let res = refraction::<Ieee>(s(1.5), s(1.0), in_direction, normal);
    assert!(-f(in_direction.x) - f(res.x) < 1e-9);
}

#[test]
fn total_reflection_is_the_mirror_direction() {
    let in_direction = vector(1., 1., 0.).normalize::<Ieee>();
    let normal = vector(-1., 0., 0.);
    let bent = refraction::<Ieee>(s(1.5), s(1.0), in_direction, normal);
    let mirrored = reflection::<Ieee>(in_direction, normal);
    assert_eq!(coords(bent), coords(mirrored));
    assert!((f(bent.x) + f(in_direction.x)).abs() < 1e-6);
    assert!((f(bent.y) - f(in_direction.y)).abs() < 1e-6);
}

#[test]
fn reflection_turns_the_normal_component() {
    let res = reflection::<Ieee>(vector(0.6, 0.0, -0.8), vector(0.0, 0.0, 1.0));
    assert!((f(res.x) - 0.6).abs() < 1e-6);
    assert_eq!(f(res.y), 0.0);
    assert!((f(res.z) - 0.8).abs() < 1e-6);
}

#[test]
fn reflection_coefficient_of_glass_head_on() {
    let r = f(reflection_coefficient::<Ieee>(s(1.0), s(1.5), s(1.0)));
    assert!((r - 0.04).abs() < 1e-6);
    let grazing = f(reflection_coefficient::<Ieee>(s(1.0), s(1.5), s(0.0)));
    assert!((grazing - 1.0).abs() < 1e-6);
    let same_medium = f(reflection_coefficient::<Ieee>(s(1.0), s(1.0), s(0.5)));
    assert_eq!(same_medium, 0.5f32.powi(5));
}

#[test]
fn constructors_set_what_they_say() {
    let m = Material::create(color(0.1, 0.2, 0.3), s(1.3), s(0.4));
    assert_eq!(channels(m.diffuse), (0.1, 0.2, 0.3));
    assert_eq!(channels(m.emissive), (0.0, 0.0, 0.0));
    assert_eq!((f(m.ior), f(m.transparency)), (1.3, 0.4));
    assert!(!m.is_emissive());

    let e = Material::create_emissive(color(5.0, 5.0, 5.0));
    assert_eq!(channels(e.diffuse), (0.0, 0.0, 0.0));
    assert_eq!(channels(e.emissive), (5.0, 5.0, 5.0));
    assert_eq!((f(e.ior), f(e.transparency)), (1.0, 0.0));
    assert!(e.is_emissive());

    let g = Material::create_glass();
    assert_eq!(channels(g.diffuse), (0.0, 0.0, 0.0));
    assert_eq!((f(g.ior), f(g.transparency)), (1.5, 1.0));
    assert!(!g.is_emissive());

    let c1 = Material::create_colored_1();
    assert_eq!(channels(c1.diffuse), (0.2, 1.0, 1.0));
    assert_eq!((f(c1.ior), f(c1.transparency)), (1.5, 0.0));
    let c2 = Material::create_colored_2();
    assert_eq!(channels(c2.diffuse), (1.0, 0.8, 0.2));
    assert_eq!((f(c2.ior), f(c2.transparency)), (1.5, 0.0));
    let c3 = Material::create_colored_3();
    assert_eq!(channels(c3.diffuse), (0.9, 0.6, 1.0));
    assert_eq!((f(c3.ior), f(c3.transparency)), (1.5, 0.0));
    assert!(!c1.is_emissive() && !c2.is_emissive() && !c3.is_emissive());
}

#[test]
fn any_one_channel_makes_a_light_source() {
    assert!(Material::create_emissive(color(0.0, 0.0, 1e-30)).is_emissive());
    assert!(Material::create_emissive(color(0.0, -2.0, 0.0)).is_emissive());
    assert!(Material::create_emissive(color(f32::NAN, 0.0, 0.0)).is_emissive());
    assert!(!Material::create_emissive(color(0.0, -0.0, 0.0)).is_emissive());
}

#[test]
fn color_arithmetic() {
    let a = color(1.0, 2.0, 3.0);
    let b = color(0.5, 0.25, 2.0);
    assert_eq!(channels(a.times::<Ieee>(b)), (0.5, 0.5, 6.0));
    assert_eq!(channels(a.scaled::<Ieee>(s(2.0))), (2.0, 4.0, 6.0));
    assert_eq!(channels(a.plus::<Ieee>(b)), (1.5, 2.25, 5.0));
    let mut c = a;
    c.accumulate::<Ieee>(b);
    assert_eq!(channels(c), (1.5, 2.25, 5.0));
    assert_eq!(channels(Color::dark()), (0.0, 0.0, 0.0));
}

#[test]
fn emissive_surface_ends_the_path_without_a_draw() {
    let mut m = Material::create_emissive(color(5.0, 4.0, 2.0));
    m.diffuse = color(0.3, 0.3, 0.3);
    m.transparency = s(1.0);
    let mut rng = Script::new(&[], &[]);
    let p = point(0.0, 0.0, 1.0);
    let n = vector(0.0, 0.0, 1.0);
    let next = m.new_ray::<Ieee, Script>(incoming(), p, n, false, &mut rng);
    assert!(next.done);
    assert_eq!(next.count, 4);
    assert_eq!(channels(next.light), (2.5, 1.0, 2.0));
    assert_eq!(f(next.ior), 1.0);
    assert_eq!(coords(next.ray.direction), (0.0, 0.0, 1.0));
    assert_eq!(f(next.ray.origin.z), 1.0);
    assert_eq!((rng.uniform_calls, rng.ball_calls), (0, 0));
}

#[test]
fn low_first_draw_mirrors_the_path() {
    let m = Material::create_colored_1();
    // head on against glass-like ior 1.5 the reflectance is 0.04
    let mut rng = Script::new(&[0.03], &[]);
    let next = m.new_ray::<Ieee, Script>(
        incoming(),
        point(0.0, 0.0, 1.0),
        vector(0.0, 0.0, 1.0),
        false,
        &mut rng,
    );
    assert!(!next.done);
    assert_eq!(next.count, 4);
    assert_eq!(channels(next.light), (0.5, 0.25, 1.0));
    assert_eq!(f(next.ior), 1.0);
    assert_eq!(coords(next.ray.direction), (0.0, 0.0, 1.0));
    assert_eq!(f(next.ray.origin.z), 1.0);
    assert_eq!((rng.uniform_calls, rng.ball_calls), (1, 0));
}

#[test]
fn opaque_surface_scatters_after_one_draw() {
    let m = Material::create_colored_1();
    let mut rng = Script::new(&[0.5], &[vector(0.0, 0.3, -0.4)]);
    let next = m.new_ray::<Ieee, Script>(
        incoming(),
        point(0.0, 0.0, 1.0),
        vector(0.0, 0.0, 1.0),
        false,
        &mut rng,
    );
    assert!(!next.done);
    assert_eq!(next.count, 4);
    assert_eq!(channels(next.light), (0.2 * 0.5, 0.25, 1.0));
    assert_eq!(f(next.ior), 1.0);
    // the point of the ball lay below the surface and is turned upwards
    let d = coords(next.ray.direction);
    assert!((d.0 - 0.0).abs() < 1e-6 && (d.1 + 0.6).abs() < 1e-6 && (d.2 - 0.8).abs() < 1e-6);
    assert_eq!((rng.uniform_calls, rng.ball_calls), (1, 1));
}

#[test]
fn glass_lets_the_path_through_on_the_second_draw() {
    let m = Material::create_glass();
    let mut rng = Script::new(&[0.5, 0.9], &[]);
    let next = m.new_ray::<Ieee, Script>(
        incoming(),
        point(0.0, 0.0, 1.0),
        vector(0.0, 0.0, 1.0),
        false,
        &mut rng,
    );
    assert!(!next.done);
    assert_eq!(next.count, 4);
    assert_eq!(channels(next.light), (0.5, 0.25, 1.0));
    assert_eq!(f(next.ior), 1.5);
    assert_eq!(coords(next.ray.direction), (0.0, 0.0, -1.0));
    assert_eq!(f(next.ray.origin.z), 1.0f32 + 1e-8f32 * -1.0f32);
    assert_eq!((rng.uniform_calls, rng.ball_calls), (2, 0));
}

#[test]
fn leaving_glass_from_inside_returns_to_the_void() {
    let m = Material::create_glass();
    let mut ray = incoming();
    ray.ior = s(1.5);
    let mut rng = Script::new(&[0.99, 0.0], &[]);
    let next = m.new_ray::<Ieee, Script>(
        ray,
        point(0.0, 0.0, 1.0),
        vector(0.0, 0.0, 1.0),
        true,
        &mut rng,
    );
    assert_eq!(f(next.ior), 1.0);
    assert!(!next.done);
}

#[test]
fn half_transparent_surface_scatters_on_a_high_second_draw() {
    let m = Material::create(color(1.0, 1.0, 1.0), s(1.5), s(0.5));
    let mut rng = Script::new(&[0.5, 0.5], &[vector(0.1, 0.0, 0.2)]);
    let next = m.new_ray::<Ieee, Script>(
        incoming(),
        point(0.0, 0.0, 1.0),
        vector(0.0, 0.0, 1.0),
        false,
        &mut rng,
    );
    assert_eq!(f(next.ior), 1.0);
    assert!(f(next.ray.direction.z) > 0.0);
    assert_eq!((rng.uniform_calls, rng.ball_calls), (2, 1));
}

#[test]
fn half_sphere_ray_keeps_to_the_side_of_the_normal() {
    let start = point(1.0, 2.0, 3.0);
    let normal = vector(0.0, 1.0, 0.0);
    let up = half_sphere_ray::<Ieee>(start, normal, vector(0.3, 0.4, 0.0));
    assert!((f(up.direction.x) - 0.6).abs() < 1e-6 && (f(up.direction.y) - 0.8).abs() < 1e-6);
    let turned = half_sphere_ray::<Ieee>(start, normal, vector(0.3, -0.4, 0.0));
    assert!((f(turned.direction.x) + 0.6).abs() < 1e-6 && (f(turned.direction.y) - 0.8).abs() < 1e-6);
    assert_eq!(coords(Vector { x: up.origin.x, y: up.origin.y, z: up.origin.z }), (1.0, 2.0, 3.0));
    let mut rng = Script::new(&[], &[vector(0.0, 0.0, 0.5)]);
    let drawn = generate_half_sphere_ray::<Ieee, Script>(start, vector(0.0, 0.0, -1.0), &mut rng);
    assert_eq!(coords(drawn.direction), (-0.0, -0.0, -1.0));
    assert_eq!(rng.ball_calls, 1);
}

#[test]
fn ball_candidate_takes_points_inside_the_ball_only() {
    let inside = ball_candidate::<Ieee>((s(0.5), s(0.75), s(0.25))).unwrap();
    assert_eq!(coords(inside), (0.0, 0.5, -0.5));
    assert!(ball_candidate::<Ieee>((s(1.0), s(0.5), s(0.5))).is_none());
    assert!(ball_candidate::<Ieee>((s(0.0), s(0.0), s(0.0))).is_none());
    assert!(ball_candidate::<Ieee>((s(0.9), s(0.9), s(0.1))).is_none());
}

fn same(a: LightRay, b: LightRay) -> bool {
    let va = [
        a.ray.origin.x, a.ray.origin.y, a.ray.origin.z,
        a.ray.direction.x, a.ray.direction.y, a.ray.direction.z,
        a.light.red, a.light.green, a.light.blue, a.ior,
    ];
    let vb = [
        b.ray.origin.x, b.ray.origin.y, b.ray.origin.z,
        b.ray.direction.x, b.ray.direction.y, b.ray.direction.z,
        b.light.red, b.light.green, b.light.blue, b.ior,
    ];
    va.iter().zip(vb.iter()).all(|(x, y)| x.to_bits() == y.to_bits())
        && a.count == b.count
        && a.done == b.done
}

#[test]
fn new_ray_decides_as_scatter_does_for_the_same_draws() {
    let p = point(0.5, -0.25, 1.0);
    let n = vector(0.0, 0.6, 0.8);
    let mut ray = incoming();
    ray.ray.direction = vector(0.0, 0.0, -1.0);
    let v = vector(0.2, -0.3, 0.1);
    let materials = [
        Material::create_colored_2(),
        Material::create_glass(),
        Material::create(color(0.5, 0.5, 0.5), s(1.2), s(0.5)),
    ];
    for m in materials {
        for inside in [false, true] {
            for c1 in [0.0f32, 0.05, 0.3, 0.99] {
                for c2 in [0.0f32, 0.4, 0.6, 0.99] {
                    let mut rng = Script::new(&[c1, c2], &[v]);
                    let drawn = m.new_ray::<Ieee, Script>(ray, p, n, inside, &mut rng);
                    let reflectance = reflection_coefficient::<Ieee>(ray.ior, m.ior, s(0.8));
                    let given = m.scatter::<Ieee>(ray, p, n, inside, reflectance, s(c1), s(c2), v);
                    assert!(same(drawn, given), "{c1} {c2} {inside}");
                }
            }
        }
    }
}

#[test]
fn scatter_takes_each_of_its_three_ways() {
    let m = Material::create(color(0.5, 0.5, 0.5), s(1.5), s(0.5));
    let p = point(0.0, 0.0, 1.0);
    let n = vector(0.0, 0.0, 1.0);
    let v = vector(0.0, 0.3, 0.4);
    let reflectance = reflection_coefficient::<Ieee>(s(1.0), s(1.5), s(1.0));
    assert!((f(reflectance) - 0.04).abs() < 1e-6);
    let mirrored = m.scatter::<Ieee>(incoming(), p, n, false, reflectance, s(0.01), s(0.9), v);
    assert!(same(mirrored, Material::mirror::<Ieee>(incoming(), p, n)));
    assert_eq!(coords(mirrored.ray.direction), (0.0, 0.0, 1.0));
    let passed = m.scatter::<Ieee>(incoming(), p, n, false, reflectance, s(0.5), s(0.4), v);
    assert!(same(passed, m.refract::<Ieee>(incoming(), p, n, false)));
    assert_eq!(f(passed.ior), 1.5);
    let scattered = m.scatter::<Ieee>(incoming(), p, n, false, reflectance, s(0.5), s(0.5), v);
    assert!(same(scattered, m.diffuse::<Ieee>(incoming(), p, n, v)));
    assert_eq!(channels(scattered.light), (0.25, 0.125, 0.5));
    let ended = Material::create_emissive(color(2.0, 2.0, 2.0)).emit::<Ieee>(incoming(), p, n);
    assert!(ended.done);
    assert_eq!(channels(ended.light), (1.0, 0.5, 2.0));
    assert_eq!(ended.count, 4);
}

#[test]
fn scatter_goes_by_the_reflectance_it_is_given() {
    let m = Material::create_colored_1();
    let p = point(0.0, 0.0, 1.0);
    let n = vector(0.0, 0.0, 1.0);
    let v = vector(0.0, 0.3, 0.4);
    let dull = m.scatter::<Ieee>(incoming(), p, n, false, s(0.0), s(0.0), s(0.0), v);
    assert!(same(dull, m.diffuse::<Ieee>(incoming(), p, n, v)));
    let bright = m.scatter::<Ieee>(incoming(), p, n, false, s(1.0), s(0.99), s(0.0), v);
    assert!(same(bright, Material::mirror::<Ieee>(incoming(), p, n)));
    let undefined = m.scatter::<Ieee>(incoming(), p, n, false, s(f32::NAN), s(0.0), s(0.0), v);
    assert!(same(undefined, m.diffuse::<Ieee>(incoming(), p, n, v)));
}
