use pathtracer::arith::Arithmetic;
use pathtracer::bbox::{BoundingBoxTree, Shape};
use pathtracer::material::{Color, Material, Sampler};
use pathtracer::math::{Point, Ray, Sphere, Vector};
use pathtracer::render::{
    accumulate, camera_ray, compute_gain, dark_buffer, disk_candidate, expose,
    generate_camera_ray, render, render_job, render_pixel, sample, zero_bytes, Closed, Monitor,
    Render,
};
use pathtracer::scalar::Scalar;
use pathtracer::scene::{Camera, Object, Scene};

struct Ieee;

fn s(x: f32) -> Scalar {
    Scalar::from_bits(x.to_bits())
}

fn f(x: Scalar) -> f32 {
    f32::from_bits(x.to_bits())
}

impl Arithmetic for Ieee {
    fn sum(a: Scalar, b: Scalar) -> Scalar {
        s(f(a) + f(b))
    }
    fn difference(a: Scalar, b: Scalar) -> Scalar {
        s(f(a) - f(b))
    }
    fn product(a: Scalar, b: Scalar) -> Scalar {
        s(f(a) * f(b))
    }
    fn quotient(a: Scalar, b: Scalar) -> Scalar {
        s(f(a) / f(b))
    }
    fn square_root(a: Scalar) -> Scalar {
        s(f(a).sqrt())
    }
    fn tangent(a: Scalar) -> Scalar {
        s(f(a).tan())
    }
    fn power(a: Scalar, n: i32) -> Scalar {
        s(f(a).powi(n))
    }
    fn from_count(n: usize) -> Scalar {
        s(n as f32)
    }
}

fn vector(x: f32, y: f32, z: f32) -> Vector {
    Vector { x: s(x), y: s(y), z: s(z) }
}

fn point(x: f32, y: f32, z: f32) -> Point {
    Point { x: s(x), y: s(y), z: s(z) }
}

fn color(r: f32, g: f32, b: f32) -> Color {
    Color { red: s(r), green: s(g), blue: s(b) }
}

fn channels(c: Color) -> (f32, f32, f32) {
    (f(c.red), f(c.green), f(c.blue))
}

/// A sampler that goes round a list of numbers and counts what was asked.
struct Wheel {
    uniforms: Vec<f32>,
    ball: Vector,
    disk: (f32, f32),
    uniform_calls: usize,
    ball_calls: usize,
    disk_calls: usize,
}

impl Wheel {
    fn new(uniforms: &[f32]) -> Wheel {
        Wheel {
            uniforms: uniforms.to_vec(),
            ball: vector(0.0, 0.0, 0.5),
            disk: (0.0, 0.0),
            uniform_calls: 0,
            ball_calls: 0,
            disk_calls: 0,
        }
    }
}

impl Sampler for Wheel {
    fn uniform(&mut self) -> Scalar {
        let u = self.uniforms[self.uniform_calls % self.uniforms.len()];
        self.uniform_calls += 1;
        s(u)
    }
    fn in_unit_ball(&mut self) -> Vector {
        self.ball_calls += 1;
        self.ball
    }
    fn in_unit_disk(&mut self) -> (Scalar, Scalar) {
        self.disk_calls += 1;
        (s(self.disk.0), s(self.disk.1))
    }
}

/// A monitor that keeps what it is told and declines after a number of
/// images.
struct Log {
    percents: Vec<f32>,
    images: Vec<Vec<u8>>,
    patience: usize,
}

impl Log {
    fn new(patience: usize) -> Log {
        Log { percents: Vec::new(), images: Vec::new(), patience }
    }
}

impl Monitor for Log {
    fn progress(&mut self, percent: Scalar) {
        self.percents.push(f(percent));
    }
    fn submit_image(&mut self, image: &Vec<u8>) -> Result<(), Closed> {
        self.images.push(image.clone());
        if self.images.len() >= self.patience {
            Err(Closed)
        } else {
            Ok(())
        }
    }
}

fn ball(x: f32, y: f32, z: f32, radius: f32, material: Material) -> Object {
    Object { shape: Shape::Sphere(Sphere { center: point(x, y, z), radius: s(radius) }), material }
}

fn grow(objects: &[Object]) -> BoundingBoxTree {
    let mut tree = BoundingBoxTree::create_empty();
    for o in objects {
        tree = tree.add::<Ieee>(*o);
    }
    tree
}

fn camera() -> Camera {
    Camera {
        look_from: point(0.0, 0.0, 0.0),
        direction: vector(1.0, 0.0, 0.0),
        up: vector(0.0, 0.0, 1.0),
        fov: s(std::f32::consts::FRAC_PI_2),
        aspect: s(2.0),
        aperture: s(0.0),
        focal_distance: s(10.0),
    }
}

fn lamp() -> Object {
    ball(20.0, 0.0, 0.0, 15.0, Material::create_emissive(color(5.0, 4.0, 2.0)))
}

#[test]
fn without_samples_the_image_is_all_zeros() {
    let tree = grow(&[ball(10.0, 0.0, 0.0, 2.0, Material::create_colored_1())]);
    let mut rng = Wheel::new(&[0.5]);
    let mut log = Log::new(usize::MAX);
    let image = render::<Ieee, Wheel, Log>(&mut log, &tree, &camera(), 4, 3, 0, &mut rng);
    assert_eq!(image, vec![0u8; 4 * 3 * 4]);
    assert!(log.images.is_empty() && log.percents.is_empty());
    assert_eq!((rng.uniform_calls, rng.ball_calls, rng.disk_calls), (0, 0, 0));
    let image = render::<Ieee, Wheel, Log>(&mut log, &tree, &camera(), 4, 3, -7, &mut rng);
    assert_eq!(image, vec![0u8; 4 * 3 * 4]);
}

#[test]
fn scene_without_light_renders_black() {
    let tree = grow(&[
        ball(10.0, 0.0, 0.0, 2.0, Material::create_colored_1()),
        ball(10.0, 5.0, 0.0, 2.0, Material::create_glass()),
        ball(10.0, -5.0, 1.0, 2.0, Material::create_colored_3()),
    ]);
    let mut rng = Wheel::new(&[0.5, 0.1, 0.9, 0.3, 0.7]);
    let mut log = Log::new(usize::MAX);
    let image = render::<Ieee, Wheel, Log>(&mut log, &tree, &camera(), 6, 3, 4, &mut rng);
    assert_eq!(image.len(), 6 * 3 * 4);
    for pixel in image.chunks(4) {
        assert_eq!(pixel, [0, 0, 0, 255]);
    }
    assert_eq!(log.images.len(), 4);
    let buffer = render_job::<Ieee, Wheel>(&tree, &camera(), &mut rng, 6, 3, 5);
    assert_eq!(buffer.len(), 18);
    for c in buffer {
        assert_eq!(channels(c), (0.0, 0.0, 0.0));
    }
}

#[test]
fn brightest_channel_comes_out_as_255() {
    let tree = grow(&[lamp()]);
    let mut rng = Wheel::new(&[0.5]);
    let mut log = Log::new(usize::MAX);
    let image = render::<Ieee, Wheel, Log>(&mut log, &tree, &camera(), 4, 2, 3, &mut rng);
    assert_eq!(image.len(), 32);
    for pixel in image.chunks(4) {
        assert_eq!(pixel, [255, 204, 102, 255]);
    }
    assert_eq!(*image.iter().max().unwrap(), 255);
    assert_eq!(log.images.len(), 3);
    assert_eq!(log.images[2], image);
    assert_eq!(log.percents, vec![100.0f32 * 1.0 / 3.0, 100.0f32 * 2.0 / 3.0, 100.0]);
}

#[test]
fn closed_preview_stops_the_rendering() {
    let tree = grow(&[lamp()]);
    let mut rng = Wheel::new(&[0.5]);
    let mut log = Log::new(2);
    let image = render::<Ieee, Wheel, Log>(&mut log, &tree, &camera(), 2, 2, 10, &mut rng);
    assert_eq!(log.images.len(), 2);
    assert_eq!(log.percents, vec![10.0, 20.0]);
    assert_eq!(image, log.images[1]);
    // two jobs of one sample for each of four pixels, three draws a sample
    assert_eq!(rng.uniform_calls, 2 * 4 * 2);
    assert_eq!(rng.disk_calls, 2 * 4);
}

#[test]
fn render_state_counts_and_merges() {
    let mut state = Render::new(2, 1, 3);
    assert_eq!(state.num_jobs, 3);
    assert_eq!(state.finished_jobs, 0);
    assert!(!state.complete());
    assert_eq!(state.img_buffer, vec![0u8; 8]);
    assert_eq!(state.accumulator.len(), 2);
    state.absorb::<Ieee>(&vec![color(1.0, 0.5, 0.0), color(0.25, 2.0, 0.0)]);
    assert_eq!(state.finished_jobs, 1);
    assert_eq!(state.img_buffer, vec![127, 63, 0, 255, 31, 255, 0, 255]);
    assert_eq!(f(state.progress::<Ieee>()), 100.0f32 * 1.0 / 3.0);
    state.absorb::<Ieee>(&vec![color(3.0, 0.0, 0.0), color(0.0, 0.0, 1.0)]);
    assert_eq!(channels(state.accumulator[0]), (4.0, 0.5, 0.0));
    assert_eq!(channels(state.accumulator[1]), (0.25, 2.0, 1.0));
    assert_eq!(state.img_buffer, vec![255, 31, 0, 255, 15, 127, 63, 255]);
    state.absorb::<Ieee>(&vec![color(0.0, 0.0, 0.0)]);
    assert!(state.complete());
    assert_eq!(f(state.progress::<Ieee>()), 100.0);
    assert_eq!(Render::new(5, 5, 0).num_jobs, 0);
    assert!(Render::new(5, 5, -3).complete());
}

#[test]
fn gain_takes_the_highest_channel_to_255() {
    let buffer = vec![color(0.5, 0.25, 0.125), color(0.1, 2.0, 0.3), color(1.5, 0.0, 1.9)];
    assert_eq!(f(compute_gain::<Ieee>(&buffer)), 255.0 / 2.0);
    let negative = vec![color(-1.0, -2.0, f32::NAN)];
    assert_eq!(f(compute_gain::<Ieee>(&negative)), f32::INFINITY);
    assert_eq!(f(compute_gain::<Ieee>(&Vec::new())), f32::INFINITY);
}

#[test]
fn expose_writes_four_bytes_to_the_pixel() {
    let acc = vec![color(1.0, 0.5, 0.004), color(2.0, 0.0, -1.0)];
    let mut image = zero_bytes(8);
    expose::<Ieee>(&acc, s(100.0), &mut image);
    assert_eq!(image, vec![100, 50, 0, 255, 200, 0, 0, 255]);
    expose::<Ieee>(&acc, s(255.0 / 2.0), &mut image);
    assert_eq!(image, vec![127, 63, 0, 255, 255, 0, 0, 255]);
}

#[test]
fn buffers_add_up_the_same_in_any_order() {
    let a = vec![color(1.0, 2.0, 3.0), color(0.5, 0.25, 0.125)];
    let b = vec![color(4.0, 8.0, 16.0), color(1.5, 2.5, 3.5)];
    let c = vec![color(0.75, 0.0, 1.0), color(2.0, 2.0, 2.0)];
    let orders = [[0, 1, 2], [0, 2, 1], [1, 0, 2], [1, 2, 0], [2, 0, 1], [2, 1, 0]];
    let all = [a, b, c];
    for order in orders {
        let mut acc = dark_buffer(2);
        for k in order {
            accumulate::<Ieee>(&mut acc, &all[k]);
        }
        assert_eq!(channels(acc[0]), (5.75, 10.0, 20.0));
        assert_eq!(channels(acc[1]), (4.0, 4.75, 5.625));
    }
}

#[test]
fn accumulate_leaves_the_tail_of_a_longer_accumulator() {
    let mut acc = vec![color(1.0, 1.0, 1.0), color(2.0, 2.0, 2.0)];
    accumulate::<Ieee>(&mut acc, &vec![color(0.5, 0.5, 0.5)]);
    assert_eq!(channels(acc[0]), (1.5, 1.5, 1.5));
    assert_eq!(channels(acc[1]), (2.0, 2.0, 2.0));
}

#[test]
fn path_that_reaches_a_lamp_brings_its_light() {
    let tree = grow(&[lamp()]);
    let mut rng = Wheel::new(&[0.5]);
    let ray = Ray { origin: point(0.0, 0.0, 0.0), direction: vector(1.0, 0.0, 0.0) };
    let light = sample::<Ieee, Wheel>(&tree, ray, &mut rng);
    assert_eq!(channels(light), (5.0, 4.0, 2.0));
    assert_eq!(rng.uniform_calls, 0);
}

#[test]
fn path_that_leaves_the_scene_brings_nothing() {
    let tree = grow(&[lamp()]);
    let mut rng = Wheel::new(&[0.5]);
    let ray = Ray { origin: point(0.0, 0.0, 0.0), direction: vector(-1.0, 0.0, 0.0) };
    assert_eq!(channels(sample::<Ieee, Wheel>(&tree, ray, &mut rng)), (0.0, 0.0, 0.0));
    let empty = BoundingBoxTree::create_empty();
    assert_eq!(channels(sample::<Ieee, Wheel>(&empty, ray, &mut rng)), (0.0, 0.0, 0.0));
}

#[test]
fn scattered_path_is_tinted_on_its_way_to_the_lamp() {
    // a grey ball in front of a lamp that lies above it
    let grey = ball(10.0, 0.0, 0.0, 1.0, Material::create(color(0.5, 0.25, 1.0), s(1.0), s(0.0)));
    let above = ball(9.0, 0.0, 100.0, 50.0, Material::create_emissive(color(2.0, 2.0, 2.0)));
    let tree = grow(&[grey, above]);
    let mut rng = Wheel::new(&[0.5]);
    rng.ball = vector(-0.1, 0.0, 0.5);
    let ray = Ray { origin: point(0.0, 0.0, 0.0), direction: vector(1.0, 0.0, 0.0) };
    let light = sample::<Ieee, Wheel>(&tree, ray, &mut rng);
    assert_eq!(channels(light), (1.0, 0.5, 2.0));
    assert_eq!((rng.uniform_calls, rng.ball_calls), (1, 1));
}

#[test]
fn path_shut_in_without_light_is_given_up_after_the_cap() {
    // inside a white ball: every bounce scatters, and nothing gives off light
    let shell = ball(0.0, 0.0, 0.0, 5.0, Material::create(color(1.0, 1.0, 1.0), s(1.0), s(0.0)));
    let tree = BoundingBoxTree::Leaf(pathtracer::bbox::Leaf { object: shell });
    let mut rng = Wheel::new(&[0.5]);
    rng.ball = vector(0.3, 0.2, 0.1);
    let ray = Ray { origin: point(0.0, 0.0, 0.0), direction: vector(1.0, 0.0, 0.0) };
    let light = sample::<Ieee, Wheel>(&tree, ray, &mut rng);
    assert_eq!(channels(light), (0.0, 0.0, 0.0));
    assert_eq!(rng.uniform_calls, 101);
    assert_eq!(rng.ball_calls, 101);
}

#[test]
fn camera_ray_through_the_middle_looks_straight_ahead() {
    let ray = camera_ray::<Ieee>(&camera(), 2, 1, 4, 2, (s(0.0), s(0.0)), (s(0.0), s(0.0)));
    assert_eq!((f(ray.origin.x), f(ray.origin.y), f(ray.origin.z)), (0.0, 0.0, 0.0));
    assert!((f(ray.direction.x) - 1.0).abs() < 1e-6);
    assert!(f(ray.direction.y).abs() < 1e-6);
    assert!(f(ray.direction.z).abs() < 1e-6);
}

#[test]
fn camera_ray_through_a_corner() {
    // field of view of a right angle: the left edge lies at 45 degrees
    let ray = camera_ray::<Ieee>(&camera(), 0, 0, 4, 2, (s(0.0), s(0.0)), (s(0.0), s(0.0)));
    let d = (f(ray.direction.x), f(ray.direction.y), f(ray.direction.z));
    // right = direction x up = (0, -1, 0); down = direction x right = (0, 0, -1)
    let len = (1.0f32 + 1.0 + 0.25).sqrt();
    assert!((d.0 - 1.0 / len).abs() < 1e-6);
    assert!((d.1 - 1.0 / len).abs() < 1e-6);
    assert!((d.2 - 0.5 / len).abs() < 1e-6);
}

#[test]
fn camera_ray_from_the_rim_of_the_lens_passes_the_focal_point() {
    let mut cam = camera();
    cam.aperture = s(0.5);
    let ray = camera_ray::<Ieee>(&cam, 2, 1, 4, 2, (s(0.0), s(0.0)), (s(1.0), s(0.0)));
    assert_eq!((f(ray.origin.x), f(ray.origin.y), f(ray.origin.z)), (0.0, -0.5, 0.0));
    // towards (10, 0, 0) on the focal plane
    let len = (100.0f32 + 0.25).sqrt();
    assert!((f(ray.direction.x) - 10.0 / len).abs() < 1e-6);
    assert!((f(ray.direction.y) - 0.5 / len).abs() < 1e-6);
}

#[test]
fn generated_camera_ray_uses_two_draws_and_a_point_of_the_lens() {
    let mut rng = Wheel::new(&[0.25, 0.75]);
    let drawn = generate_camera_ray::<Ieee, Wheel>(&camera(), &mut rng, 1, 1, 4, 2);
    assert_eq!((rng.uniform_calls, rng.ball_calls, rng.disk_calls), (2, 0, 1));
    let given = camera_ray::<Ieee>(&camera(), 1, 1, 4, 2, (s(0.25), s(0.75)), (s(0.0), s(0.0)));
    assert_eq!(drawn.direction.x.to_bits(), given.direction.x.to_bits());
    assert_eq!(drawn.direction.y.to_bits(), given.direction.y.to_bits());
    assert_eq!(drawn.direction.z.to_bits(), given.direction.z.to_bits());
}

#[test]
fn disk_candidate_takes_points_of_the_disk_only() {
    let (x, y) = disk_candidate::<Ieee>((s(0.75), s(0.25))).unwrap();
    assert_eq!((f(x), f(y)), (0.5, -0.5));
    let (x, y) = disk_candidate::<Ieee>((s(1.0), s(0.5))).unwrap();
    assert_eq!((f(x), f(y)), (1.0, 0.0));
    assert!(disk_candidate::<Ieee>((s(0.0), s(0.0))).is_none());
    assert!(disk_candidate::<Ieee>((s(0.9), s(0.9))).is_none());
}

#[test]
fn pixel_adds_up_its_samples() {
    let tree = grow(&[lamp()]);
    let mut rng = Wheel::new(&[0.5]);
    let light = render_pixel::<Ieee, Wheel>(&tree, &camera(), &mut rng, 1, 1, 4, 2, 3);
    assert_eq!(channels(light), (15.0, 12.0, 6.0));
    let none = render_pixel::<Ieee, Wheel>(&tree, &camera(), &mut rng, 1, 1, 4, 2, 0);
    assert_eq!(channels(none), (0.0, 0.0, 0.0));
    let less = render_pixel::<Ieee, Wheel>(&tree, &camera(), &mut rng, 1, 1, 4, 2, -2);
    assert_eq!(channels(less), (0.0, 0.0, 0.0));
}

#[test]
fn job_fills_the_rows_from_the_top() {
    // a lamp that only the upper half of the image sees
    let high = ball(10.0, 0.0, 60.0, 58.0, Material::create_emissive(color(1.0, 1.0, 1.0)));
    let tree = grow(&[high]);
    let mut rng = Wheel::new(&[0.5]);
    let buffer = render_job::<Ieee, Wheel>(&tree, &camera(), &mut rng, 3, 4, 2);
    assert_eq!(buffer.len(), 12);
    for x in 0..3 {
        assert_eq!(channels(buffer[x]), (2.0, 2.0, 2.0));
        assert_eq!(channels(buffer[3 * 3 + x]), (0.0, 0.0, 0.0));
    }
}

#[test]
fn new_scene_has_no_objects() {
    let scene = Scene::new();
    assert!(scene.objs.is_empty());
}

#[test]
fn fresh_buffers() {
    assert_eq!(zero_bytes(5), vec![0u8; 5]);
    assert!(zero_bytes(0).is_empty());
    let dark = dark_buffer(3);
    assert_eq!(dark.len(), 3);
    for c in dark {
        assert_eq!(channels(c), (0.0, 0.0, 0.0));
    }
}

#[test]
fn carries_on_while_jobs_are_left_and_the_monitor_takes_the_image() {
    let mut state = Render::new(1, 1, 2);
    assert!(state.carries_on(&Ok(())));
    assert!(!state.carries_on(&Err(Closed)));
    state.absorb::<Ieee>(&vec![color(1.0, 1.0, 1.0)]);
    assert!(state.carries_on(&Ok(())));
    assert!(!state.carries_on(&Err(Closed)));
    state.absorb::<Ieee>(&vec![color(1.0, 1.0, 1.0)]);
    assert!(!state.carries_on(&Ok(())));
    assert!(!Render::new(3, 3, 0).carries_on(&Ok(())));
}

#[test]
fn monitor_that_declines_the_third_image_sees_three_rounds() {
    let tree = grow(&[lamp()]);
    let mut rng = Wheel::new(&[0.5]);
    let mut log = Log::new(3);
    let image = render::<Ieee, Wheel, Log>(&mut log, &tree, &camera(), 2, 1, 7, &mut rng);
    assert_eq!(log.images.len(), 3);
    assert_eq!(log.percents, vec![100.0f32 * 1.0 / 7.0, 100.0f32 * 2.0 / 7.0, 100.0f32 * 3.0 / 7.0]);
    assert_eq!(image, log.images[2]);
    assert_eq!(image, vec![255, 204, 102, 255, 255, 204, 102, 255]);
    // three jobs of one sample for each of two pixels, two coins a sample
    assert_eq!(rng.uniform_calls, 3 * 2 * 2);
}

#[test]
fn monitor_that_takes_every_image_sees_every_job() {
    let tree = grow(&[lamp()]);
    let mut rng = Wheel::new(&[0.5]);
    let mut log = Log::new(usize::MAX);
    render::<Ieee, Wheel, Log>(&mut log, &tree, &camera(), 2, 1, 5, &mut rng);
    assert_eq!(log.images.len(), 5);
    assert_eq!(log.percents.len(), 5);
    assert_eq!(log.percents[4], 100.0);
}

#[test]
fn path_without_a_part_for_chance_draws_nothing() {
    let tree = grow(&[lamp()]);
    let mut rng = Wheel::new(&[0.5]);
    let hit = Ray { origin: point(0.0, 0.0, 0.0), direction: vector(1.0, 0.0, 0.0) };
    sample::<Ieee, Wheel>(&tree, hit, &mut rng);
    let miss = Ray { origin: point(0.0, 0.0, 0.0), direction: vector(-1.0, 0.0, 0.0) };
    sample::<Ieee, Wheel>(&tree, miss, &mut rng);
    sample::<Ieee, Wheel>(&BoundingBoxTree::create_empty(), hit, &mut rng);
    assert_eq!((rng.uniform_calls, rng.ball_calls, rng.disk_calls), (0, 0, 0));
}
