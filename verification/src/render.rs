//! From a scene and a camera to an image: camera rays, light paths, the
//! work of one job, and the merging of finished jobs into a picture.

use vstd::prelude::*;
use crate::arith::count_to_scalar;
use crate::arith::difference;
use crate::arith::difference_defined;
use crate::arith::exact;
use crate::arith::from_count;
use crate::arith::from_count_defined;
use crate::arith::minus;
use crate::arith::over;
use crate::arith::plus;
use crate::arith::product;
use crate::arith::product_defined;
use crate::arith::quotient;
use crate::arith::quotient_defined;
use crate::arith::sum;
use crate::arith::sum_defined;
use crate::arith::tan;
use crate::arith::tangent_of;
use crate::arith::times;
use crate::arith::well_defined;
use crate::arith::Arithmetic;
use crate::bbox::BoundingBoxTree;
use crate::material::draws_fairly;
use crate::material::tossed;
use crate::material::Color;
use crate::material::LightRay;
use crate::material::Sampler;
use crate::math::cross;
use crate::math::of_bits;
use crate::math::spec_cross;
use crate::math::spec_translate;
use crate::math::translate;
use crate::math::Ray;
use crate::math::Vector;
use crate::math::TWO_BITS;
use crate::scalar::lemma_to_byte_saturates;
use crate::scalar::Scalar;
use crate::scalar::ONE_BITS;
use crate::scene::Camera;
use crate::scene::Object;
use crate::trace::lemma_search_finds_nearest;
use crate::trace::searched;
use crate::trace::shoot_ray;

verus! {

/// The number of surfaces after which a path is given up.
pub const BOUNCE_CAP: i32 = 100;

/// The point of the lens disk for two draws: the point with coordinates
/// `2 u - 1`, unless it lies outside the disk of radius one.
pub open spec fn spec_disk_candidate<K: Arithmetic>(u: (Scalar, Scalar)) -> Option<
    (Scalar, Scalar),
> {
    let x = difference::<K>(product::<K>(of_bits(TWO_BITS), u.0), of_bits(ONE_BITS));
    let y = difference::<K>(product::<K>(of_bits(TWO_BITS), u.1), of_bits(ONE_BITS));
    if sum::<K>(product::<K>(x, x), product::<K>(y, y)).spec_gt(of_bits(ONE_BITS)) {
        None
    } else {
        Some((x, y))
    }
}

/// One try at a point of the unit disk: two draws give a point of the square
/// around it, which counts unless it lies outside the disk. A sampler
/// repeats this until a point counts.
pub fn disk_candidate<K: Arithmetic>(u: (Scalar, Scalar)) -> (p: Option<(Scalar, Scalar)>)
    requires
        sum_defined::<K>(),
        difference_defined::<K>(),
        product_defined::<K>(),
    ensures
        p == spec_disk_candidate::<K>(u),
{
    let two = Scalar::from_bits(TWO_BITS);
    let one = Scalar::one();
    let x = minus::<K>(times::<K>(two, u.0), one);
    let y = minus::<K>(times::<K>(two, u.1), one);
    if plus::<K>(times::<K>(x, x), times::<K>(y, y)).gt(one) {
        None
    } else {
        Some((x, y))
    }
}

/// Where pixel `index` of `extent` lies between -1 and 1, moved within the
/// pixel by the share `jitter`: `2 (index / extent + (1 / extent) jitter) - 1`.
pub open spec fn spec_screen_param<K: Arithmetic>(index: usize, extent: usize, jitter: Scalar) -> Scalar {
    difference::<K>(
        product::<K>(
            of_bits(TWO_BITS),
            sum::<K>(
                quotient::<K>(from_count::<K>(index), from_count::<K>(extent)),
                product::<K>(quotient::<K>(of_bits(ONE_BITS), from_count::<K>(extent)), jitter),
            ),
        ),
        of_bits(ONE_BITS),
    )
}

/// The ray through pixel `(x, y)` of an image of `width` by `height` pixels.
///
/// `jitter` places the ray within the pixel and `lens` is the point of the
/// unit disk at which it passes the lens.
///
/// `x_range` stands for the tangent of half the field of view. With `right`
/// the unit vector along `direction x up` and `down` the unit vector along
/// `direction x right`, the pixel lies on the plane at distance one in front
/// of the camera, `x_range` times its horizontal parameter to the right and
/// `x_range / aspect` times its vertical parameter down. The displacement from the camera to that point, stretched by
/// `focal_distance`, leads to the point on the focal plane through which the
/// ray passes. The ray starts on the lens, off the centre by `aperture`
/// times `lens`, along `right` and `down`.
pub open spec fn spec_camera_ray<K: Arithmetic>(
    cam: Camera,
    x: usize,
    y: usize,
    width: usize,
    height: usize,
    jitter: (Scalar, Scalar),
    lens: (Scalar, Scalar),
    x_range: Scalar,
) -> Ray {
    let origin = cam.look_from;
    let right = spec_cross::<K>(cam.direction, cam.up).spec_normalize::<K>();
    let down = spec_cross::<K>(cam.direction, right).spec_normalize::<K>();
    let y_range = quotient::<K>(x_range, cam.aspect);
    let p_x = product::<K>(x_range, spec_screen_param::<K>(x, width, jitter.0));
    let p_y = product::<K>(y_range, spec_screen_param::<K>(y, height, jitter.1));
    let p_disp = down.spec_scaled::<K>(p_y).spec_plus::<K>(right.spec_scaled::<K>(p_x));
    let through_screen = spec_translate::<K>(spec_translate::<K>(origin, cam.direction), p_disp);
    let displacement = through_screen.spec_minus::<K>(origin);
    let through = spec_translate::<K>(origin, displacement.spec_scaled::<K>(cam.focal_distance));
    let perturbed_origin = spec_translate::<K>(
        origin,
        right.spec_scaled::<K>(product::<K>(lens.0, cam.aperture)).spec_plus::<K>(
            down.spec_scaled::<K>(product::<K>(lens.1, cam.aperture)),
        ),
    );
    Ray::spec_create::<K>(perturbed_origin, through)
}

fn screen_param<K: Arithmetic>(index: usize, extent: usize, jitter: Scalar) -> (p: Scalar)
    requires
        sum_defined::<K>(),
        difference_defined::<K>(),
        product_defined::<K>(),
        quotient_defined::<K>(),
        from_count_defined::<K>(),
    ensures
        p == spec_screen_param::<K>(index, extent, jitter),
{
    let one = Scalar::one();
    let share = over::<K>(count_to_scalar::<K>(index), count_to_scalar::<K>(extent));
    let cell = over::<K>(one, count_to_scalar::<K>(extent));
    minus::<K>(
        times::<K>(Scalar::from_bits(TWO_BITS), plus::<K>(share, times::<K>(cell, jitter))),
        one,
    )
}

/// Half the field of view of the camera.
pub open spec fn half_view<K: Arithmetic>(cam: Camera) -> Scalar {
    quotient::<K>(cam.fov, of_bits(TWO_BITS))
}

/// The ray through pixel `(x, y)` for given draws, with the tangent of half
/// the field of view as the machine gives it this time.
pub fn camera_ray<K: Arithmetic>(
    cam: &Camera,
    x: usize,
    y: usize,
    width: usize,
    height: usize,
    jitter: (Scalar, Scalar),
    lens: (Scalar, Scalar),
) -> (ray: Ray)
    requires
        exact::<K>(),
        from_count_defined::<K>(),
    ensures
        exists|x_range: Scalar|
            tangent_of::<K>(half_view::<K>(*cam), x_range) && ray == #[trigger] spec_camera_ray::<K>(
                *cam,
                x,
                y,
                width,
                height,
                jitter,
                lens,
                x_range,
            ),
{
    let origin = cam.look_from;
    let right = cross::<K>(cam.direction, cam.up).normalize::<K>();
    let down = cross::<K>(cam.direction, right).normalize::<K>();
    let x_range = tan::<K>(over::<K>(cam.fov, Scalar::from_bits(TWO_BITS)));
    let y_range = over::<K>(x_range, cam.aspect);
    let param_x = screen_param::<K>(x, width, jitter.0);
    let param_y = screen_param::<K>(y, height, jitter.1);
    let p_x = times::<K>(x_range, param_x);
    let p_y = times::<K>(y_range, param_y);
    let p_disp = down.scaled::<K>(p_y).plus::<K>(right.scaled::<K>(p_x));
    let p_orig = translate::<K>(origin, cam.direction);
    let through_screen = translate::<K>(p_orig, p_disp);
    let displacement = through_screen.minus::<K>(origin);
    let through = translate::<K>(origin, displacement.scaled::<K>(cam.focal_distance));
    let perturbation_x = times::<K>(lens.0, cam.aperture);
    let perturbation_y = times::<K>(lens.1, cam.aperture);
    let perturbed_origin = translate::<K>(
        origin,
        right.scaled::<K>(perturbation_x).plus::<K>(down.scaled::<K>(perturbation_y)),
    );
    let ray = Ray::create::<K>(perturbed_origin, through);
    assert(ray == spec_camera_ray::<K>(*cam, x, y, width, height, jitter, lens, x_range));
    ray
}

/// A ray through pixel `(x, y)`, placed by chance within the pixel and on
/// the lens: two uniform draws for the place in the pixel, across and down,
/// then a point of the unit disk for the place on the lens.
pub fn generate_camera_ray<K: Arithmetic, R: Sampler>(
    cam: &Camera,
    rng: &mut R,
    x: usize,
    y: usize,
    width: usize,
    height: usize,
) -> (ray: Ray)
    requires
        exact::<K>(),
        from_count_defined::<K>(),
    ensures
        exists|jitter: (Scalar, Scalar), lens: (Scalar, Scalar), x_range: Scalar|
            tangent_of::<K>(half_view::<K>(*cam), x_range) && ray == #[trigger] spec_camera_ray::<K>(
                *cam,
                x,
                y,
                width,
                height,
                jitter,
                lens,
                x_range,
            ),
{
    let across = rng.uniform();
    let down = rng.uniform();
    let lens = rng.in_unit_disk();
    camera_ray::<K>(cam, x, y, width, height, (across, down), lens)
}

/// The state of a path that sets out along `ray`: it lets all light through,
/// travels in the void and has met no surface.
pub open spec fn primary(ray: Ray) -> LightRay {
    LightRay { ray, light: Color::white(), ior: of_bits(ONE_BITS), count: 0, done: false }
}

/// What is left open at one surface: the reflectance as the machine gives
/// it, the two coins of `Material::scatter`, and the point of the unit ball
/// that gives a scattered path its direction.
pub struct Draw {
    pub reflectance: Scalar,
    pub coin_reflect: Scalar,
    pub coin_refract: Scalar,
    pub v: Vector,
}

impl Draw {
    /// The coins are as a sampler gives them that draws fairly, if `fairly`
    /// says that the sampler does so.
    pub open spec fn tossed(self, fairly: bool) -> bool {
        tossed(fairly, self.coin_reflect, self.coin_refract)
    }
}

/// Where a path stands: it goes on in some state, or it has ended and
/// brings some light.
pub enum Walk {
    Going(LightRay),
    Ended(Color),
}

/// The state of a path in state `ray` after the next surface, where chance
/// decides as `draw` says.
///
/// A path that meets nothing leaves the scene and brings no light. On a
/// light source the path ends and brings what it let through, weighted with
/// the light of the source; no draw is looked at. Any other surface sends the
/// path on as `Material::scatter` says, unless it has then met more than
/// `BOUNCE_CAP` surfaces: such a path is given up and brings no light.
pub open spec fn step<K: Arithmetic>(tree: BoundingBoxTree, ray: LightRay, draw: Draw) -> Walk {
    match searched::<K>(tree, ray.ray, None) {
        None => Walk::Ended(Color::black()),
        Some((object, hit)) => {
            let next = if object.material.emits() {
                object.material.emitted::<K>(ray, hit.point, hit.normal)
            } else {
                object.material.scattered::<K>(
                    ray,
                    hit.point,
                    hit.normal,
                    hit.inside,
                    draw.reflectance,
                    draw.coin_reflect,
                    draw.coin_refract,
                    draw.v,
                )
            };
            if next.done {
                Walk::Ended(next.light)
            } else if next.count > BOUNCE_CAP {
                Walk::Ended(Color::black())
            } else {
                Walk::Going(next)
            }
        },
    }
}

/// The draw holds a reflectance that the surface which the path meets
/// next can have. Where the path meets nothing, or a light source, no
/// reflectance is asked for, and every draw fits.
pub open spec fn fits<K: Arithmetic>(tree: BoundingBoxTree, ray: LightRay, draw: Draw) -> bool {
    match searched::<K>(tree, ray.ray, None) {
        None => true,
        Some((object, hit)) => object.material.emits() || object.material.reflects::<K>(
            ray,
            hit.normal,
            draw.reflectance,
        ),
    }
}

/// Where a path that starts in state `start` stands after one surface for
/// every draw, the draws taken in their order. There is no such place if
/// the path has ended before the draws are used up, or if a draw does not
/// fit the surface at which it is used.
pub open spec fn walk<K: Arithmetic>(
    tree: BoundingBoxTree,
    start: LightRay,
    draws: Seq<Draw>,
) -> Option<Walk>
    decreases draws.len(),
{
    if draws.len() == 0 {
        Some(Walk::Going(start))
    } else {
        match walk::<K>(tree, start, draws.drop_last()) {
            Some(Walk::Going(ray)) => if fits::<K>(tree, ray, draws.last()) {
                Some(step::<K>(tree, ray, draws.last()))
            } else {
                None
            },
            _ => None,
        }
    }
}

/// `light` is what a path along `ray` brings for some run of draws, one for
/// every surface that the path meets until it ends. If `fairly` holds, the
/// coins among the draws lie from zero up to one.
pub open spec fn arrives<K: Arithmetic>(
    fairly: bool,
    tree: BoundingBoxTree,
    ray: Ray,
    light: Color,
) -> bool {
    exists|draws: Seq<Draw>|
        {
            &&& draws.len() <= BOUNCE_CAP + 1
            &&& forall|i: int| 0 <= i < draws.len() ==> (#[trigger] draws[i]).tossed(fairly)
            &&& #[trigger] walk::<K>(tree, primary(ray), draws) == Some(Walk::Ended(light))
        }
}

/// `light` is what one sample for pixel `(x, y)` can bring: what arrives
/// along a camera ray through that pixel.
pub open spec fn seen<K: Arithmetic>(
    fairly: bool,
    tree: BoundingBoxTree,
    cam: Camera,
    width: usize,
    height: usize,
    x: usize,
    y: usize,
    light: Color,
) -> bool {
    exists|jitter: (Scalar, Scalar), lens: (Scalar, Scalar), x_range: Scalar|
        tangent_of::<K>(half_view::<K>(cam), x_range) && arrives::<K>(
            fairly,
            tree,
            #[trigger] spec_camera_ray::<K>(cam, x, y, width, height, jitter, lens, x_range),
            light,
        )
}

/// No object of the tree gives off light.
pub open spec fn unlit(tree: BoundingBoxTree) -> bool {
    forall|object: Object| tree.objects().count(object) > 0 ==> !object.material.emits()
}

/// The light that arrives along `initial_ray`.
///
/// The path is followed from surface to surface until it ends on a light
/// source, leaves the scene, or has met more than `BOUNCE_CAP` surfaces. What
/// comes back is what `walk` gives for the values that were drawn on the
/// way. Only a path that ends on a light source brings light: a path that
/// leaves the scene or is given up brings none, and in a scene without a
/// light source no path brings any. Where chance has no part, the result is
/// fixed and nothing is drawn: a ray that meets nothing brings no light, and
/// a ray that meets a light source first brings the light of that source.
pub fn sample<K: Arithmetic, R: Sampler>(
    tree: &BoundingBoxTree,
    initial_ray: Ray,
    rng: &mut R,
) -> (light: Color)
    requires
        exact::<K>(),
    ensures
        arrives::<K>(draws_fairly::<R>(), *tree, initial_ray, light),
        unlit(*tree) ==> light == Color::black(),
        match searched::<K>(*tree, initial_ray, None) {
            None => light == Color::black() && *final(rng) == *old(rng),
            Some((object, _)) => object.material.emits() ==> light == Color::white().spec_times::<K>(
                object.material.emissive,
            ) && *final(rng) == *old(rng),
        },
{
    let mut ray = LightRay {
        ray: initial_ray,
        light: Color { red: Scalar::one(), green: Scalar::one(), blue: Scalar::one() },
        ior: Scalar::one(),
        count: 0,
        done: false,
    };
    let ghost start = ray;
    let ghost mut draws: Seq<Draw> = Seq::empty();
    loop
        invariant
            exact::<K>(),
            start == primary(initial_ray),
            walk::<K>(*tree, start, draws) == Some(Walk::Going(ray)),
            forall|i: int| 0 <= i < draws.len() ==> (#[trigger] draws[i]).tossed(draws_fairly::<R>()),
            draws.len() == ray.count,
            0 <= ray.count <= BOUNCE_CAP,
            !ray.done,
            ray.count == 0 ==> ray == start && *rng == *old(rng),
            ray.count > 0 ==> (searched::<K>(*tree, initial_ray, None) matches Some((object, _))
                && !object.material.emits()),
        decreases BOUNCE_CAP - ray.count,
    {
        let ghost before = ray;
        let ghost used = draws;
        let ghost unused = Draw {
            reflectance: of_bits(0),
            coin_reflect: of_bits(0),
            coin_refract: of_bits(0),
            v: Vector { x: of_bits(0), y: of_bits(0), z: of_bits(0) },
        };
        match shoot_ray::<K>(tree, &ray.ray) {
            Some((o, hit)) => {
                ray = o.material.new_ray::<K, R>(ray, hit.point, hit.normal, hit.inside, rng);
                proof {
                    lemma_search_finds_nearest::<K>(*tree, before.ray);
                    let draw = if o.material.emits() {
                        unused
                    } else {
                        let (reflectance, coin_reflect, coin_refract, v) = choose|
                            reflectance: Scalar,
                            coin_reflect: Scalar,
                            coin_refract: Scalar,
                            v: Vector,
                        |
                            o.material.reflects::<K>(before, hit.normal, reflectance) && tossed(
                                draws_fairly::<R>(),
                                coin_reflect,
                                coin_refract,
                            ) && ray == #[trigger] o.material.scattered::<K>(
                                before,
                                hit.point,
                                hit.normal,
                                hit.inside,
                                reflectance,
                                coin_reflect,
                                coin_refract,
                                v,
                            );
                        Draw { reflectance, coin_reflect, coin_refract, v }
                    };
                    draws = used.push(draw);
                    assert(draws.drop_last() =~= used);
                    assert(draws.last() == draw);
                    assert(draw.tossed(draws_fairly::<R>()));
                    assert forall|i: int| 0 <= i < draws.len() implies (
                    #[trigger] draws[i]).tossed(draws_fairly::<R>()) by {
                        if i < used.len() {
                            assert(draws[i] == used[i]);
                        }
                    }
                }
            },
            None => {
                proof {
                    draws = used.push(unused);
                    assert(draws.drop_last() =~= used);
                    assert(unused.tossed(draws_fairly::<R>()));
                    assert forall|i: int| 0 <= i < draws.len() implies (
                    #[trigger] draws[i]).tossed(draws_fairly::<R>()) by {
                        if i < used.len() {
                            assert(draws[i] == used[i]);
                        }
                    }
                    assert(walk::<K>(*tree, start, draws) == Some(Walk::Ended(Color::black())));
                }
                return Color::dark();
            },
        }
        if ray.done {
            proof {
                assert(walk::<K>(*tree, start, draws) == Some(Walk::Ended(ray.light)));
            }
            return ray.light;
        }
        if ray.count > BOUNCE_CAP {
            proof {
                assert(walk::<K>(*tree, start, draws) == Some(Walk::Ended(Color::black())));
            }
            return Color::dark();
        }
    }
}

/// The sum of the samples, added one after the other to no light.
pub open spec fn total<K: Arithmetic>(samples: Seq<Color>) -> Color
    decreases samples.len(),
{
    if samples.len() == 0 {
        Color::black()
    } else {
        total::<K>(samples.drop_last()).spec_plus::<K>(samples.last())
    }
}

/// The sum of `n` samples without light.
pub open spec fn dark_total<K: Arithmetic>(n: nat) -> Color {
    total::<K>(darkness(n))
}

/// The number of samples in a run of `rays` of them: none for a negative
/// number.
pub open spec fn run_length(rays: i64) -> nat {
    if rays > 0 {
        rays as nat
    } else {
        0
    }
}

/// `light` is what `n` samples for pixel `(x, y)` can add up to.
pub open spec fn exposed<K: Arithmetic>(
    fairly: bool,
    tree: BoundingBoxTree,
    cam: Camera,
    width: usize,
    height: usize,
    x: usize,
    y: usize,
    n: nat,
    light: Color,
) -> bool {
    exists|samples: Seq<Color>|
        {
            &&& samples.len() == n
            &&& forall|i: int|
                0 <= i < n ==> seen::<K>(fairly, tree, cam, width, height, x, y, #[trigger] samples[i])
            &&& light == #[trigger] total::<K>(samples)
        }
}

/// `buffer` is what a job of `n` samples to the pixel can bring: a pixel for
/// every place of the image, each the sum of its own samples.
pub open spec fn developed<K: Arithmetic>(
    fairly: bool,
    tree: BoundingBoxTree,
    cam: Camera,
    width: usize,
    height: usize,
    n: nat,
    buffer: Seq<Color>,
) -> bool {
    &&& buffer.len() == width * height
    &&& forall|x: usize, y: usize|
        x < width && y < height ==> exposed::<K>(
            fairly,
            tree,
            cam,
            width,
            height,
            x,
            y,
            n,
            buffer[#[trigger] pixel_index(width, x, y)],
        )
}

/// The place of pixel `(x, y)` in a buffer that holds the rows of the image
/// one after the other, from the top.
pub open spec fn pixel_index(width: usize, x: usize, y: usize) -> int {
    width * y + x
}

proof fn lemma_pixel_index_in_range(width: usize, height: usize, x: usize, y: usize)
    requires
        x < width,
        y < height,
    ensures
        0 <= pixel_index(width, x, y) < width * height,
        pixel_index(width, x, y) + 1 <= width * (y + 1),
{
    assert(width * y + width == width * (y + 1)) by (nonlinear_arith);
    assert(width * (y + 1) <= width * height) by (nonlinear_arith)
        requires
            y + 1 <= height,
    ;
    assert(0 <= width * y) by (nonlinear_arith);
}

proof fn lemma_pixel_rows_in_order(width: usize, x: usize, y: usize, below: usize)
    requires
        x < width,
        y < below,
    ensures
        0 <= pixel_index(width, x, y) < width * below,
{
    assert(width * y + width <= width * below) by (nonlinear_arith)
        requires
            y + 1 <= below,
    ;
    assert(0 <= width * y) by (nonlinear_arith);
}

/// A buffer of `n` pixels without light.
pub fn dark_buffer(n: usize) -> (buffer: Vec<Color>)
    ensures
        buffer@.len() == n,
        forall|i: int| 0 <= i < n ==> #[trigger] buffer@[i] == Color::black(),
{
    let mut buffer: Vec<Color> = Vec::new();
    let mut i: usize = 0;
    while i < n
        invariant
            i <= n,
            buffer@.len() == i,
            forall|j: int| 0 <= j < i ==> #[trigger] buffer@[j] == Color::black(),
        decreases n - i,
    {
        buffer.push(Color::dark());
        i = i + 1;
    }
    buffer
}

/// The light that arrives at pixel `(x, y)`: the sum of `rays_per_pixel`
/// samples, each along a camera ray of its own.
pub fn render_pixel<K: Arithmetic, R: Sampler>(
    tree: &BoundingBoxTree,
    camera: &Camera,
    rng: &mut R,
    x: usize,
    y: usize,
    width: usize,
    height: usize,
    rays_per_pixel: i64,
) -> (light: Color)
    requires
        well_defined::<K>(),
    ensures
        exposed::<K>(draws_fairly::<R>(), *tree, *camera, width, height, x, y, run_length(rays_per_pixel), light),
        unlit(*tree) ==> light == dark_total::<K>(run_length(rays_per_pixel)),
{
    let mut light = Color::dark();
    let ghost mut samples: Seq<Color> = Seq::empty();
    let mut i: i64 = 0;
    while i < rays_per_pixel
        invariant
            well_defined::<K>(),
            0 <= i <= run_length(rays_per_pixel),
            samples.len() == i,
            forall|j: int|
                0 <= j < i ==> seen::<K>(draws_fairly::<R>(), *tree, *camera, width, height, x, y, #[trigger] samples[j]),
            light == total::<K>(samples),
            unlit(*tree) ==> samples == darkness(i as nat),
        decreases rays_per_pixel - i,
    {
        let ray = generate_camera_ray::<K, R>(camera, rng, x, y, width, height);
        let val = sample::<K, R>(tree, ray, rng);
        light.accumulate::<K>(val);
        proof {
            assert(seen::<K>(draws_fairly::<R>(), *tree, *camera, width, height, x, y, val));
            let longer = samples.push(val);
            assert(longer.drop_last() =~= samples);
            if unlit(*tree) {
                assert(longer =~= darkness((i + 1) as nat));
            }
            samples = longer;
        }
        i = i + 1;
    }
    light
}

/// The work of one job: `rays_per_pixel` samples for every pixel of the
/// image, summed per pixel, the rows one after the other from the top.
pub fn render_job<K: Arithmetic, R: Sampler>(
    tree: &BoundingBoxTree,
    camera: &Camera,
    rng: &mut R,
    width: usize,
    height: usize,
    rays_per_pixel: i64,
) -> (buffer: Vec<Color>)
    requires
        well_defined::<K>(),
        width * height <= usize::MAX,
    ensures
        developed::<K>(draws_fairly::<R>(), *tree, *camera, width, height, run_length(rays_per_pixel), buffer@),
        unlit(*tree) ==> forall|i: int|
            0 <= i < buffer@.len() ==> #[trigger] buffer@[i] == dark_total::<K>(
                run_length(rays_per_pixel),
            ),
{
    let ghost n = run_length(rays_per_pixel);
    let mut buffer: Vec<Color> = Vec::new();
    let mut y: usize = 0;
    while y < height
        invariant
            well_defined::<K>(),
            width * height <= usize::MAX,
            n == run_length(rays_per_pixel),
            y <= height,
            buffer@.len() == width * y,
            forall|px: usize, py: usize|
                px < width && py < y ==> exposed::<K>(
                    draws_fairly::<R>(),
                    *tree,
                    *camera,
                    width,
                    height,
                    px,
                    py,
                    n,
                    buffer@[#[trigger] pixel_index(width, px, py)],
                ),
            unlit(*tree) ==> forall|i: int|
                0 <= i < buffer@.len() ==> #[trigger] buffer@[i] == dark_total::<K>(n),
        decreases height - y,
    {
        let mut x: usize = 0;
        while x < width
            invariant
                well_defined::<K>(),
                width * height <= usize::MAX,
                n == run_length(rays_per_pixel),
                y < height,
                x <= width,
                buffer@.len() == pixel_index(width, x, y),
                forall|px: usize, py: usize|
                    px < width && py < y ==> exposed::<K>(
                        draws_fairly::<R>(),
                        *tree,
                        *camera,
                        width,
                        height,
                        px,
                        py,
                        n,
                        buffer@[#[trigger] pixel_index(width, px, py)],
                    ),
                forall|px: usize|
                    px < x ==> exposed::<K>(
                        draws_fairly::<R>(),
                        *tree,
                        *camera,
                        width,
                        height,
                        px,
                        y,
                        n,
                        buffer@[#[trigger] pixel_index(width, px, y)],
                    ),
                unlit(*tree) ==> forall|i: int|
                    0 <= i < buffer@.len() ==> #[trigger] buffer@[i] == dark_total::<K>(n),
            decreases width - x,
        {
            proof {
                lemma_pixel_index_in_range(width, height, x, y);
            }
            let ghost before = buffer@;
            let light = render_pixel::<K, R>(tree, camera, rng, x, y, width, height, rays_per_pixel);
            buffer.push(light);
            proof {
                assert forall|px: usize, py: usize| px < width && py < y implies exposed::<K>(
                    draws_fairly::<R>(),
                    *tree,
                    *camera,
                    width,
                    height,
                    px,
                    py,
                    n,
                    buffer@[#[trigger] pixel_index(width, px, py)],
                ) by {
                    lemma_pixel_rows_in_order(width, px, py, y);
                    assert(buffer@[pixel_index(width, px, py)] == before[pixel_index(
                        width,
                        px,
                        py,
                    )]);
                }
                assert forall|px: usize| px < x + 1 implies exposed::<K>(
                    draws_fairly::<R>(),
                    *tree,
                    *camera,
                    width,
                    height,
                    px,
                    y,
                    n,
                    buffer@[#[trigger] pixel_index(width, px, y)],
                ) by {
                    if px < x {
                        assert(buffer@[pixel_index(width, px, y)] == before[pixel_index(
                            width,
                            px,
                            y,
                        )]);
                    }
                }
            }
            x = x + 1;
        }
        proof {
            assert(width * y + width == width * (y + 1)) by (nonlinear_arith);
        }
        y = y + 1;
    }
    buffer
}

/// Bits of 255.0, the value of a channel at full exposure.
pub const FULL_BITS: u32 = 0x437f_0000;

/// Bits of 100.0.
pub const HUNDRED_BITS: u32 = 0x42c8_0000;

/// The highest value so far after a look at one more pixel: its channels
/// are looked at in the order red, green, blue, and a channel takes over
/// only if it is strictly greater.
pub open spec fn raised(max: Scalar, c: Color) -> Scalar {
    let after_red = if c.red.spec_gt(max) {
        c.red
    } else {
        max
    };
    let after_green = if c.green.spec_gt(after_red) {
        c.green
    } else {
        after_red
    };
    if c.blue.spec_gt(after_green) {
        c.blue
    } else {
        after_green
    }
}

/// The highest channel value in the buffer, or zero if none is above zero.
pub open spec fn peak(buffer: Seq<Color>) -> Scalar
    decreases buffer.len(),
{
    if buffer.len() == 0 {
        of_bits(0)
    } else {
        raised(peak(buffer.drop_last()), buffer.last())
    }
}

/// The factor that takes the highest channel value of the buffer to 255.
pub open spec fn spec_gain<K: Arithmetic>(buffer: Seq<Color>) -> Scalar {
    quotient::<K>(of_bits(FULL_BITS), peak(buffer))
}

/// The four bytes of one pixel at the given exposure: red, green and blue
/// multiplied by `factor` and rounded down, then 255 for full opacity.
pub open spec fn pixel_bytes<K: Arithmetic>(c: Color, factor: Scalar) -> Seq<u8> {
    seq![
        product::<K>(c.red, factor).spec_to_byte(),
        product::<K>(c.green, factor).spec_to_byte(),
        product::<K>(c.blue, factor).spec_to_byte(),
        255u8,
    ]
}

/// The image of the accumulator at the given exposure: four bytes for every
/// pixel, in the order of the pixels.
pub open spec fn frame<K: Arithmetic>(accumulator: Seq<Color>, factor: Scalar) -> Seq<u8> {
    Seq::new(
        4 * accumulator.len(),
        |j: int| pixel_bytes::<K>(accumulator[j / 4], factor)[j % 4],
    )
}

/// The accumulator with the buffer of one more job added to it, pixel by
/// pixel. Pixels beyond the end of the buffer stay as they are.
pub open spec fn merged<K: Arithmetic>(accumulator: Seq<Color>, buffer: Seq<Color>) -> Seq<Color> {
    Seq::new(
        accumulator.len(),
        |i: int|
            if i < buffer.len() {
                accumulator[i].spec_plus::<K>(buffer[i])
            } else {
                accumulator[i]
            },
    )
}

/// The highest channel value is not a NaN, no channel of the buffer is
/// greater, and unless it is zero it is a channel of the buffer.
pub proof fn lemma_peak_is_highest(buffer: Seq<Color>)
    ensures
        !peak(buffer).nan(),
        forall|i: int|
            0 <= i < buffer.len() ==> {
                let c = #[trigger] buffer[i];
                !c.red.spec_gt(peak(buffer)) && !c.green.spec_gt(peak(buffer)) && !c.blue.spec_gt(
                    peak(buffer),
                )
            },
        peak(buffer) == of_bits(0) || exists|i: int|
            0 <= i < buffer.len() && {
                let c = #[trigger] buffer[i];
                c.red == peak(buffer) || c.green == peak(buffer) || c.blue == peak(buffer)
            },
    decreases buffer.len(),
{
    if buffer.len() > 0 {
        let before = buffer.drop_last();
        lemma_peak_is_highest(before);
        let m = peak(before);
        let top = peak(buffer);
        assert(!top.spec_lt(m));
        assert forall|i: int| 0 <= i < buffer.len() implies {
            let c = #[trigger] buffer[i];
            !c.red.spec_gt(top) && !c.green.spec_gt(top) && !c.blue.spec_gt(top)
        } by {
            if i < before.len() {
                assert(before[i] == buffer[i]);
            }
        }
        if top != of_bits(0) {
            if top == m {
                let k = choose|k: int|
                    0 <= k < before.len() && {
                        let c = #[trigger] before[k];
                        c.red == m || c.green == m || c.blue == m
                    };
                assert(buffer[k] == before[k]);
            } else {
                let c = buffer[buffer.len() - 1];
                assert(c.red == top || c.green == top || c.blue == top);
            }
        }
    }
}

/// The factor that takes the brightest channel of the buffer to 255. A
/// buffer without light has no such factor: what comes back then is 255
/// divided by zero.
pub fn compute_gain<K: Arithmetic>(buffer: &Vec<Color>) -> (factor: Scalar)
    requires
        quotient_defined::<K>(),
    ensures
        factor == spec_gain::<K>(buffer@),
{
    let mut max = Scalar::zero();
    let mut i: usize = 0;
    while i < buffer.len()
        invariant
            i <= buffer@.len(),
            max == peak(buffer@.take(i as int)),
        decreases buffer@.len() - i,
    {
        let val = buffer[i];
        if val.red.gt(max) {
            max = val.red;
        }
        if val.green.gt(max) {
            max = val.green;
        }
        if val.blue.gt(max) {
            max = val.blue;
        }
        proof {
            assert(buffer@.take(i + 1).drop_last() =~= buffer@.take(i as int));
        }
        i = i + 1;
    }
    proof {
        assert(buffer@.take(i as int) =~= buffer@);
    }
    over::<K>(Scalar::from_bits(FULL_BITS), max)
}

/// Writes the image of the accumulator at the given exposure.
pub fn expose<K: Arithmetic>(accumulator: &Vec<Color>, factor: Scalar, img_buffer: &mut Vec<u8>)
    requires
        product_defined::<K>(),
        old(img_buffer)@.len() == 4 * accumulator@.len(),
    ensures
        final(img_buffer)@ == frame::<K>(accumulator@, factor),
{
    let size = img_buffer.len();
    let mut i: usize = 0;
    let mut n: usize = 0;
    while n < accumulator.len()
        invariant
            product_defined::<K>(),
            n <= accumulator@.len(),
            i == 4 * n,
            img_buffer@.len() == 4 * accumulator@.len(),
            img_buffer@.len() == size,
            forall|j: int|
                0 <= j < i ==> #[trigger] img_buffer@[j] == frame::<K>(accumulator@, factor)[j],
        decreases accumulator@.len() - n,
    {
        let val = accumulator[n];
        img_buffer.set(i, times::<K>(val.red, factor).to_byte());
        img_buffer.set(i + 1, times::<K>(val.green, factor).to_byte());
        img_buffer.set(i + 2, times::<K>(val.blue, factor).to_byte());
        img_buffer.set(i + 3, 255);
        proof {
            assert forall|j: int| 0 <= j < i + 4 implies #[trigger] img_buffer@[j] == frame::<K>(
                accumulator@,
                factor,
            )[j] by {
                if j >= i {
                    assert(j / 4 == n as int);
                    assert(j % 4 == j - i);
                }
            }
        }
        i = i + 4;
        n = n + 1;
    }
    proof {
        assert(img_buffer@ =~= frame::<K>(accumulator@, factor));
    }
}

/// Adds the buffer of a finished job to the accumulator, pixel by pixel.
pub fn accumulate<K: Arithmetic>(accumulator: &mut Vec<Color>, buffer: &Vec<Color>)
    requires
        sum_defined::<K>(),
        buffer@.len() <= old(accumulator)@.len(),
    ensures
        final(accumulator)@ == merged::<K>(old(accumulator)@, buffer@),
{
    let ghost start = accumulator@;
    let mut i: usize = 0;
    while i < buffer.len()
        invariant
            sum_defined::<K>(),
            i <= buffer@.len() <= accumulator@.len(),
            accumulator@.len() == start.len(),
            forall|j: int| 0 <= j < i ==> #[trigger] accumulator@[j] == merged::<K>(start, buffer@)[j],
            forall|j: int| i <= j < start.len() ==> #[trigger] accumulator@[j] == start[j],
        decreases buffer@.len() - i,
    {
        let sum = accumulator[i].plus::<K>(buffer[i]);
        accumulator.set(i, sum);
        i = i + 1;
    }
    proof {
        assert(accumulator@ =~= merged::<K>(start, buffer@));
    }
}

/// The preview has been closed and takes no more images.
#[derive(Debug)]
pub struct Closed;

/// Who looks on while an image is rendered.
///
/// Nothing is asked of an implementation: the library's contracts say what
/// holds whatever it answers.
pub trait Monitor {
    /// Takes note of the share of the jobs that are finished, in percent.
    fn progress(&mut self, percent: Scalar);

    /// Takes the image as it stands. An error says that nobody is looking
    /// any more.
    fn submit_image(&mut self, image: &Vec<u8>) -> Result<(), Closed>;
}

/// An image in the making: what the finished jobs have brought so far.
pub struct Render {
    /// The sum of the buffers of the finished jobs, pixel by pixel.
    pub accumulator: Vec<Color>,
    /// The image of the accumulator, four bytes to the pixel.
    pub img_buffer: Vec<u8>,
    /// The number of jobs that the samples are split into.
    pub num_jobs: usize,
    /// The number of jobs whose buffers are in the accumulator.
    pub finished_jobs: usize,
}

/// `n` pixels without light.
pub open spec fn darkness(n: nat) -> Seq<Color> {
    Seq::new(n, |i: int| Color::black())
}

/// The accumulator of `n` pixels after `jobs` jobs that found no light,
/// each with `per_job` samples to the pixel.
pub open spec fn dark_accumulator<K: Arithmetic>(n: nat, jobs: nat, per_job: nat) -> Seq<Color>
    decreases jobs,
{
    if jobs == 0 {
        darkness(n)
    } else {
        merged::<K>(
            dark_accumulator::<K>(n, (jobs - 1) as nat, per_job),
            Seq::new(n, |i: int| dark_total::<K>(per_job)),
        )
    }
}

/// The image of the accumulator at the exposure that takes its highest
/// channel value to 255.
pub open spec fn picture<K: Arithmetic>(accumulator: Seq<Color>) -> Seq<u8> {
    frame::<K>(accumulator, spec_gain::<K>(accumulator))
}

/// The image of `n` pixels after `jobs` jobs of one sample to the pixel
/// that found no light.
pub open spec fn dark_picture<K: Arithmetic>(n: nat, jobs: nat) -> Seq<u8> {
    picture::<K>(dark_accumulator::<K>(n, jobs, 1))
}

/// The share of `finished` in `jobs`, in percent: `100 finished / jobs`.
pub open spec fn spec_progress<K: Arithmetic>(finished: usize, jobs: usize) -> Scalar {
    quotient::<K>(
        product::<K>(of_bits(HUNDRED_BITS), from_count::<K>(finished)),
        from_count::<K>(jobs),
    )
}

/// `n` bytes of zero.
pub fn zero_bytes(n: usize) -> (bytes: Vec<u8>)
    ensures
        bytes@.len() == n,
        forall|i: int| 0 <= i < n ==> #[trigger] bytes@[i] == 0,
{
    let mut bytes: Vec<u8> = Vec::new();
    let mut i: usize = 0;
    while i < n
        invariant
            i <= n,
            bytes@.len() == i,
            forall|j: int| 0 <= j < i ==> #[trigger] bytes@[j] == 0,
        decreases n - i,
    {
        bytes.push(0);
        i = i + 1;
    }
    bytes
}

impl Render {
    /// The image has four bytes for every pixel of the accumulator.
    pub open spec fn well_formed(&self) -> bool {
        self.img_buffer@.len() == 4 * self.accumulator@.len()
    }

    /// The start of an image of `width` by `height` pixels with
    /// `rays_per_pixel` samples to the pixel: one job for every sample, none
    /// of them finished, and an image of zeros.
    pub fn new(width: usize, height: usize, rays_per_pixel: i64) -> (state: Render)
        requires
            4 * (width * height) <= usize::MAX,
            rays_per_pixel <= usize::MAX,
        ensures
            state.well_formed(),
            state.accumulator@ == darkness((width * height) as nat),
            state.img_buffer@.len() == 4 * (width * height),
            forall|i: int| 0 <= i < state.img_buffer@.len() ==> #[trigger] state.img_buffer@[i] == 0,
            state.num_jobs == run_length(rays_per_pixel),
            state.finished_jobs == 0,
    {
        assert(width * height <= 4 * (width * height)) by (nonlinear_arith);
        let pixels = width * height;
        let accumulator = dark_buffer(pixels);
        let img_buffer = zero_bytes(pixels * 4);
        let num_jobs: usize = if rays_per_pixel > 0 {
            rays_per_pixel as usize
        } else {
            0
        };
        proof {
            assert(accumulator@ =~= darkness(pixels as nat));
        }
        Render { accumulator, img_buffer, num_jobs, finished_jobs: 0 }
    }

    /// Whether every job is finished.
    pub fn complete(&self) -> (r: bool)
        ensures
            r == (self.finished_jobs >= self.num_jobs),
    {
        self.finished_jobs >= self.num_jobs
    }

    /// Whether the rendering goes on after the monitor has given `answer` to
    /// the image of the last job: it does while jobs are left and the monitor
    /// takes the images.
    pub fn carries_on(&self, answer: &Result<(), Closed>) -> (r: bool)
        ensures
            r == (*answer is Ok && self.finished_jobs < self.num_jobs),
    {
        match answer {
            Ok(_) => !self.complete(),
            Err(_) => false,
        }
    }

    /// The share of the jobs that are finished, in percent.
    pub fn progress<K: Arithmetic>(&self) -> (percent: Scalar)
        requires
            product_defined::<K>(),
            quotient_defined::<K>(),
            from_count_defined::<K>(),
        ensures
            percent == spec_progress::<K>(self.finished_jobs, self.num_jobs),
    {
        over::<K>(
            times::<K>(Scalar::from_bits(HUNDRED_BITS), count_to_scalar::<K>(self.finished_jobs)),
            count_to_scalar::<K>(self.num_jobs),
        )
    }

    /// Takes in the buffer of a finished job: counts the job, adds its buffer
    /// to the accumulator, and draws the image anew, at the exposure that
    /// takes the brightest channel seen so far to 255.
    pub fn absorb<K: Arithmetic>(&mut self, buffer: &Vec<Color>)
        requires
            sum_defined::<K>(),
            product_defined::<K>(),
            quotient_defined::<K>(),
            old(self).well_formed(),
            old(self).finished_jobs < usize::MAX,
            buffer@.len() <= old(self).accumulator@.len(),
        ensures
            final(self).well_formed(),
            final(self).num_jobs == old(self).num_jobs,
            final(self).finished_jobs == old(self).finished_jobs + 1,
            final(self).accumulator@ == merged::<K>(old(self).accumulator@, buffer@),
            final(self).img_buffer@ == picture::<K>(final(self).accumulator@),
    {
        self.finished_jobs = self.finished_jobs + 1;
        accumulate::<K>(&mut self.accumulator, buffer);
        let factor = compute_gain::<K>(&self.accumulator);
        expose::<K>(&self.accumulator, factor, &mut self.img_buffer);
    }
}

/// The share of the jobs that are finished after round `round`, the rounds
/// counted from zero, in percent.
pub open spec fn spec_share<K: Arithmetic>(round: int, jobs: usize) -> Scalar {
    spec_progress::<K>((round + 1) as usize, jobs)
}

/// The monitor takes every image. This holds of a monitor that says so of
/// itself; of others nothing is known.
pub open spec fn never_declines<M: Monitor>() -> bool {
    forall|call: &mut M, v: &Vec<u8>, answer: Result<(), Closed>|
        call_ensures(M::submit_image, (call, v), answer) ==> answer is Ok
}

/// What happened in a rendering, round by round. In round `i` a job is
/// finished and the monitor hears of it.
pub struct Record<M> {
    /// What the job of each round brought.
    pub buffers: Seq<Seq<Color>>,
    /// What the jobs have gathered with the job of each round.
    pub accumulators: Seq<Seq<Color>>,
    /// The share of the jobs that are finished, in percent, as the monitor
    /// is told it in each round.
    pub shares: Seq<Scalar>,
    /// The monitor when it is told the share.
    pub told_from: Seq<M>,
    /// The monitor when it is handed the picture of the accumulator.
    pub asked_from: Seq<M>,
    /// What the monitor says to the picture.
    pub answers: Seq<Result<(), Closed>>,
    /// The monitor after it has answered.
    pub left_at: Seq<M>,
}

impl<M> Record<M> {
    /// The number of rounds.
    pub open spec fn len(self) -> nat {
        self.buffers.len()
    }

    /// The record with one more round.
    pub open spec fn with(
        self,
        buffer: Seq<Color>,
        accumulator: Seq<Color>,
        share: Scalar,
        told_from: M,
        asked_from: M,
        answer: Result<(), Closed>,
        left_at: M,
    ) -> Record<M> {
        Record {
            buffers: self.buffers.push(buffer),
            accumulators: self.accumulators.push(accumulator),
            shares: self.shares.push(share),
            told_from: self.told_from.push(told_from),
            asked_from: self.asked_from.push(asked_from),
            answers: self.answers.push(answer),
            left_at: self.left_at.push(left_at),
        }
    }
}

/// The record of some rounds of a rendering with `jobs` jobs of one sample
/// to the pixel. In each round a job brings a buffer, which is added to what
/// the rounds before have gathered; the monitor is told the share of the
/// jobs that are finished and is handed the picture of the accumulator.
/// Every answer but the last takes the image.
pub open spec fn recorded<K: Arithmetic, M: Monitor>(
    fairly: bool,
    tree: BoundingBoxTree,
    cam: Camera,
    width: usize,
    height: usize,
    jobs: usize,
    record: Record<M>,
) -> bool {
    let rounds = record.len();
    &&& record.accumulators.len() == rounds
    &&& record.shares.len() == rounds
    &&& record.told_from.len() == rounds
    &&& record.asked_from.len() == rounds
    &&& record.answers.len() == rounds
    &&& record.left_at.len() == rounds
    &&& forall|i: int|
        0 <= i < rounds ==> {
            &&& developed::<K>(fairly, tree, cam, width, height, 1, #[trigger] record.buffers[i])
            &&& record.accumulators[i] == merged::<K>(
                if i == 0 {
                    darkness((width * height) as nat)
                } else {
                    record.accumulators[i - 1]
                },
                record.buffers[i],
            )
            &&& record.shares[i] == spec_share::<K>(i, jobs)
            &&& (i < rounds - 1 ==> record.answers[i] is Ok)
        }
}

/// The record of a whole rendering with `jobs` jobs: there is one round at
/// least, and the last round is the last job or the one in which the monitor
/// declined. A monitor that never declines sees every job.
pub open spec fn rendered<K: Arithmetic, M: Monitor>(
    fairly: bool,
    tree: BoundingBoxTree,
    cam: Camera,
    width: usize,
    height: usize,
    jobs: usize,
    record: Record<M>,
) -> bool {
    &&& recorded::<K, M>(fairly, tree, cam, width, height, jobs, record)
    &&& 1 <= record.len() <= jobs
    &&& (record.len() == jobs || record.answers.last() is Err)
    &&& (never_declines::<M>() ==> record.len() == jobs)
}

/// A record with one more round is a record, if the round fits: the monitor
/// took the image of the round before, and the new accumulator is the old
/// one with the new buffer added.
proof fn lemma_record_grows<K: Arithmetic, M: Monitor>(
    fairly: bool,
    tree: BoundingBoxTree,
    cam: Camera,
    width: usize,
    height: usize,
    jobs: usize,
    record: Record<M>,
    buffer: Seq<Color>,
    accumulator: Seq<Color>,
    share: Scalar,
    told_from: M,
    asked_from: M,
    answer: Result<(), Closed>,
    left_at: M,
)
    requires
        recorded::<K, M>(fairly, tree, cam, width, height, jobs, record),
        developed::<K>(fairly, tree, cam, width, height, 1, buffer),
        record.len() > 0 ==> record.answers.last() is Ok,
        accumulator == merged::<K>(
            if record.len() == 0 {
                darkness((width * height) as nat)
            } else {
                record.accumulators.last()
            },
            buffer,
        ),
        share == spec_share::<K>(record.len() as int, jobs),
    ensures
        recorded::<K, M>(
            fairly,
            tree,
            cam,
            width,
            height,
            jobs,
            record.with(buffer, accumulator, share, told_from, asked_from, answer, left_at),
        ),
{
    let longer = record.with(buffer, accumulator, share, told_from, asked_from, answer, left_at);
    assert forall|i: int| 0 <= i < longer.len() implies {
        &&& developed::<K>(fairly, tree, cam, width, height, 1, #[trigger] longer.buffers[i])
        &&& longer.accumulators[i] == merged::<K>(
            if i == 0 {
                darkness((width * height) as nat)
            } else {
                longer.accumulators[i - 1]
            },
            longer.buffers[i],
        )
        &&& longer.shares[i] == spec_share::<K>(i, jobs)
        &&& (i < longer.len() - 1 ==> longer.answers[i] is Ok)
    } by {
        if i < record.len() {
            assert(longer.buffers[i] == record.buffers[i]);
        }
    }
}

/// Renders the scene: an image of `width` by `height` pixels, four bytes to
/// the pixel, the rows one after the other from the top.
///
/// The samples are split into one job for every sample to the pixel. After
/// each job the monitor is told how far the work has come, the image is
/// drawn anew from all that the jobs have brought so far, and the monitor is
/// handed the image. If the monitor declines it, the jobs still to come are
/// dropped and the image is returned as it stands; a monitor that never
/// declines sees every job.
///
/// Without samples there are no jobs: the image is all zeros and the
/// monitor is not called. With samples, there is a record of the rounds as
/// `rendered` describes it: the image is the picture of the last round, the
/// monitor was called twice in each round of the record, with what the
/// record says and to the effect that it says, and it is left as the last
/// round left it. In a scene where nothing gives off light, each job brings
/// sums of samples without light and nothing else.
pub fn render<K: Arithmetic, R: Sampler, M: Monitor>(
    monitor: &mut M,
    tree: &BoundingBoxTree,
    camera: &Camera,
    width: usize,
    height: usize,
    rays_per_pixel: i64,
    rng: &mut R,
) -> (image: Vec<u8>)
    requires
        well_defined::<K>(),
        4 * (width * height) <= usize::MAX,
        rays_per_pixel <= usize::MAX,
    ensures
        image@.len() == 4 * (width * height),
        rays_per_pixel <= 0 ==> *final(monitor) == *old(monitor) && forall|i: int|
            0 <= i < image@.len() ==> #[trigger] image@[i] == 0,
        rays_per_pixel > 0 ==> exists|record: Record<M>|
            {
                &&& #[trigger] rendered::<K, M>(
                    draws_fairly::<R>(),
                    *tree,
                    *camera,
                    width,
                    height,
                    rays_per_pixel as usize,
                    record,
                )
                &&& image@ == picture::<K>(record.accumulators.last())
                &&& record.left_at.last() == *final(monitor)
                &&& forall|i: int|
                    0 <= i < record.len() ==> {
                        &&& #[trigger] record.told_from[i] == (if i == 0 {
                            *old(monitor)
                        } else {
                            record.left_at[i - 1]
                        })
                        &&& (exists|call: &mut M|
                            *call == record.told_from[i] && *final(call) == record.asked_from[i]
                                && #[trigger] call_ensures(M::progress, (call, record.shares[i]), ()))
                        &&& (exists|call: &mut M, v: &Vec<u8>|
                            *call == record.asked_from[i] && *final(call) == record.left_at[i] && v@ == picture::<K>(
                                record.accumulators[i],
                            ) && #[trigger] call_ensures(M::submit_image, (call, v), record.answers[i]))
                    }
            },
        rays_per_pixel > 0 && unlit(*tree) ==> exists|jobs: nat|
            1 <= jobs <= rays_per_pixel && image@ == #[trigger] dark_picture::<K>(
                (width * height) as nat,
                jobs,
            ),
{
    let mut state = Render::new(width, height, rays_per_pixel);
    let mut answer: Result<(), Closed> = Ok(());
    let ghost mut record: Record<M> = Record {
        buffers: Seq::empty(),
        accumulators: Seq::empty(),
        shares: Seq::empty(),
        told_from: Seq::empty(),
        asked_from: Seq::empty(),
        answers: Seq::empty(),
        left_at: Seq::empty(),
    };
    assert(width * height <= 4 * (width * height)) by (nonlinear_arith);
    while state.carries_on(&answer)
        invariant
            well_defined::<K>(),
            width * height <= usize::MAX,
            state.well_formed(),
            state.finished_jobs <= state.num_jobs,
            state.num_jobs == run_length(rays_per_pixel),
            state.accumulator@.len() == width * height,
            record.len() == state.finished_jobs,
            recorded::<K, M>(
                draws_fairly::<R>(),
                *tree,
                *camera,
                width,
                height,
                state.num_jobs,
                record,
            ),
            forall|i: int|
                0 <= i < record.len() ==> {
                    &&& #[trigger] record.told_from[i] == (if i == 0 {
                        *old(monitor)
                    } else {
                        record.left_at[i - 1]
                    })
                    &&& (exists|call: &mut M|
                        *call == record.told_from[i] && *final(call) == record.asked_from[i]
                            && #[trigger] call_ensures(M::progress, (call, record.shares[i]), ()))
                    &&& (exists|call: &mut M, v: &Vec<u8>|
                        *call == record.asked_from[i] && *final(call) == record.left_at[i] && v@ == picture::<K>(
                            record.accumulators[i],
                        ) && #[trigger] call_ensures(M::submit_image, (call, v), record.answers[i]))
                },
            record.len() == 0 ==> answer is Ok && *monitor == *old(monitor)
                && state.accumulator@ == darkness((width * height) as nat) && forall|i: int|
                0 <= i < state.img_buffer@.len() ==> #[trigger] state.img_buffer@[i] == 0,
            record.len() > 0 ==> {
                &&& record.answers.last() == answer
                &&& record.left_at.last() == *monitor
                &&& record.accumulators.last() == state.accumulator@
                &&& state.img_buffer@ == picture::<K>(state.accumulator@)
            },
            unlit(*tree) ==> state.accumulator@ == dark_accumulator::<K>(
                (width * height) as nat,
                state.finished_jobs as nat,
                1,
            ),
        decreases state.num_jobs - state.finished_jobs,
    {
        let ghost earlier = record;
        let per_job: i64 = rays_per_pixel / (state.num_jobs as i64);
        let buffer = render_job::<K, R>(tree, camera, rng, width, height, per_job);
        proof {
            if unlit(*tree) {
                assert(buffer@ =~= Seq::new(
                    (width * height) as nat,
                    |i: int| dark_total::<K>(1),
                ));
            }
        }
        state.absorb::<K>(&buffer);
        let ghost before = *monitor;
        let percent = state.progress::<K>();
        monitor.progress(percent);
        let ghost between = *monitor;
        assert(exists|call: &mut M|
            *call == before && *final(call) == between && #[trigger] call_ensures(
                M::progress,
                (call, percent),
                (),
            ));
        answer = monitor.submit_image(&state.img_buffer);
        let ghost after = *monitor;
        assert(exists|call: &mut M, v: &Vec<u8>|
            *call == between && *final(call) == after && v@ == state.img_buffer@
                && #[trigger] call_ensures(M::submit_image, (call, v), answer));
        proof {
            lemma_record_grows::<K, M>(
                draws_fairly::<R>(),
                *tree,
                *camera,
                width,
                height,
                state.num_jobs,
                earlier,
                buffer@,
                state.accumulator@,
                percent,
                before,
                between,
                answer,
                after,
            );
            record = earlier.with(
                buffer@,
                state.accumulator@,
                percent,
                before,
                between,
                answer,
                after,
            );
            let round = earlier.len() as int;
            assert forall|i: int| 0 <= i < record.len() implies {
                &&& #[trigger] record.told_from[i] == (if i == 0 {
                    *old(monitor)
                } else {
                    record.left_at[i - 1]
                })
                &&& (exists|call: &mut M|
                    *call == record.told_from[i] && *final(call) == record.asked_from[i]
                        && #[trigger] call_ensures(M::progress, (call, record.shares[i]), ()))
                &&& (exists|call: &mut M, v: &Vec<u8>|
                    *call == record.asked_from[i] && *final(call) == record.left_at[i] && v@ == picture::<K>(
                        record.accumulators[i],
                    ) && #[trigger] call_ensures(M::submit_image, (call, v), record.answers[i]))
            } by {
                if i < round {
                    assert(record.told_from[i] == earlier.told_from[i]);
                    assert(record.asked_from[i] == earlier.asked_from[i]);
                    assert(record.left_at[i] == earlier.left_at[i]);
                    assert(record.answers[i] == earlier.answers[i]);
                    assert(record.shares[i] == earlier.shares[i]);
                    assert(record.accumulators[i] == earlier.accumulators[i]);
                    if i > 0 {
                        assert(record.left_at[i - 1] == earlier.left_at[i - 1]);
                    }
                } else {
                    assert(record.told_from[i] == before);
                    assert(record.asked_from[i] == between);
                    assert(record.left_at[i] == after);
                    assert(record.answers[i] == answer);
                    assert(record.shares[i] == percent);
                    assert(record.accumulators[i] == state.accumulator@);
                    if i > 0 {
                        assert(record.left_at[i - 1] == earlier.left_at.last());
                    }
                }
            }
        }
    }
    proof {
        if rays_per_pixel > 0 {
            assert(record.len() > 0);
            assert(state.num_jobs == rays_per_pixel as usize);
            assert(forall|i: int|
                0 <= i < record.len() ==> {
                &&& #[trigger] record.told_from[i] == (if i == 0 {
                    *old(monitor)
                } else {
                    record.left_at[i - 1]
                })
                &&& (exists|call: &mut M|
                    *call == record.told_from[i] && *final(call) == record.asked_from[i]
                        && #[trigger] call_ensures(M::progress, (call, record.shares[i]), ()))
                &&& (exists|call: &mut M, v: &Vec<u8>|
                    *call == record.asked_from[i] && *final(call) == record.left_at[i] && v@ == picture::<K>(
                        record.accumulators[i],
                    ) && #[trigger] call_ensures(M::submit_image, (call, v), record.answers[i]))
            });
            assert(state.img_buffer@ == picture::<K>(record.accumulators.last()));
            assert(record.left_at.last() == *monitor);
            assert(record.told_from[record.len() - 1] == record.told_from.last());
            assert(never_declines::<M>() ==> record.answers.last() is Ok);
            assert(rendered::<K, M>(
                draws_fairly::<R>(),
                *tree,
                *camera,
                width,
                height,
                rays_per_pixel as usize,
                record,
            ));
        }
        if rays_per_pixel > 0 && unlit(*tree) {
            assert(state.img_buffer@ == dark_picture::<K>(
                (width * height) as nat,
                state.finished_jobs as nat,
            ));
        }
    }
    state.img_buffer
}

/// The highest channel value of pixels without light is zero.
pub proof fn lemma_darkness_has_no_peak(n: nat)
    ensures
        peak(darkness(n)) == of_bits(0),
    decreases n,
{
    if n > 0 {
        lemma_darkness_has_no_peak((n - 1) as nat);
        assert(darkness(n).drop_last() =~= darkness((n - 1) as nat));
    }
}

/// The picture of a scene without a light source is black, given two facts
/// of the number system: zero and zero add up to zero, and zero times the
/// gain of an accumulator without light, which is 255 divided by zero,
/// becomes the byte 0. Every pixel then has 0 for red, green and blue, and
/// 255 for its fourth byte.
pub proof fn lemma_dark_picture_is_black<K: Arithmetic>(n: nat, jobs: nat)
    requires
        sum::<K>(of_bits(0), of_bits(0)) == of_bits(0),
        product::<K>(
            of_bits(0),
            quotient::<K>(of_bits(FULL_BITS), of_bits(0)),
        ).spec_to_byte() == 0,
    ensures
        dark_picture::<K>(n, jobs).len() == 4 * n,
        forall|j: int|
            0 <= j < 4 * n ==> #[trigger] dark_picture::<K>(n, jobs)[j] == (if j % 4 == 3 {
                255u8
            } else {
                0u8
            }),
{
    lemma_dark_sums_hold_no_light::<K>(n, jobs, 1);
    lemma_darkness_has_no_peak(n);
    assert forall|j: int| 0 <= j < 4 * n implies #[trigger] dark_picture::<K>(n, jobs)[j] == (if j
        % 4 == 3 {
        255u8
    } else {
        0u8
    }) by {
        assert(0 <= j / 4 < n);
        assert(darkness(n)[j / 4] == Color::black());
    }
}

/// Where the accumulator holds some light, and its highest channel value
/// times the gain does not fall below 255 for a loss to rounding, the
/// picture has a byte of 255 at the place of that channel. No byte of a
/// picture is more than 255, a byte being what it is.
pub proof fn lemma_brightest_channel_is_full<K: Arithmetic>(accumulator: Seq<Color>)
    requires
        peak(accumulator) != of_bits(0),
        product::<K>(peak(accumulator), spec_gain::<K>(accumulator)).spec_ge(of_bits(FULL_BITS)),
    ensures
        exists|j: int|
            0 <= j < picture::<K>(accumulator).len() && #[trigger] picture::<K>(accumulator)[j]
                == 255,
{
    lemma_peak_is_highest(accumulator);
    let top = peak(accumulator);
    lemma_to_byte_saturates(product::<K>(top, spec_gain::<K>(accumulator)));
    let i = choose|i: int|
        0 <= i < accumulator.len() && {
            let c = #[trigger] accumulator[i];
            c.red == top || c.green == top || c.blue == top
        };
    let c = accumulator[i];
    let channel: int = if c.red == top {
        0
    } else if c.green == top {
        1
    } else {
        2
    };
    let j = 4 * i + channel;
    assert(j / 4 == i && j % 4 == channel);
    assert(picture::<K>(accumulator)[j] == 255);
}

/// In a number system whose sums do not depend on the order or the grouping
/// of their terms, two jobs may finish in either order: the accumulator comes
/// out the same. The sums of the machine are rounded and do depend on the
/// grouping, so that there the two accumulators agree only up to rounding.
pub proof fn lemma_two_jobs_in_either_order<K: Arithmetic>(
    accumulator: Seq<Color>,
    first: Seq<Color>,
    second: Seq<Color>,
)
    requires
        forall|a: Scalar, b: Scalar| #[trigger] sum::<K>(a, b) == sum::<K>(b, a),
        forall|a: Scalar, b: Scalar, c: Scalar| #[trigger]
            sum::<K>(sum::<K>(a, b), c) == sum::<K>(a, sum::<K>(b, c)),
    ensures
        merged::<K>(merged::<K>(accumulator, first), second) == merged::<K>(
            merged::<K>(accumulator, second),
            first,
        ),
{
    let one_way = merged::<K>(merged::<K>(accumulator, first), second);
    let other_way = merged::<K>(merged::<K>(accumulator, second), first);
    assert forall|i: int| 0 <= i < accumulator.len() implies one_way[i] == other_way[i] by {
        let c = accumulator[i];
        if i < first.len() && i < second.len() {
            lemma_sum_swaps::<K>(c.red, first[i].red, second[i].red);
            lemma_sum_swaps::<K>(c.green, first[i].green, second[i].green);
            lemma_sum_swaps::<K>(c.blue, first[i].blue, second[i].blue);
        }
    }
    assert(one_way =~= other_way);
}

proof fn lemma_sum_swaps<K: Arithmetic>(c: Scalar, a: Scalar, b: Scalar)
    requires
        forall|a: Scalar, b: Scalar| #[trigger] sum::<K>(a, b) == sum::<K>(b, a),
        forall|a: Scalar, b: Scalar, c: Scalar| #[trigger]
            sum::<K>(sum::<K>(a, b), c) == sum::<K>(a, sum::<K>(b, c)),
    ensures
        sum::<K>(sum::<K>(c, a), b) == sum::<K>(sum::<K>(c, b), a),
{
    assert(sum::<K>(sum::<K>(c, a), b) == sum::<K>(c, sum::<K>(a, b)));
    assert(sum::<K>(a, b) == sum::<K>(b, a));
    assert(sum::<K>(sum::<K>(c, b), a) == sum::<K>(c, sum::<K>(b, a)));
}

/// In a number system where zero and zero add up to zero, any number of
/// samples without light add up to no light, and an accumulator that only
/// such sums have gone into holds no light in any pixel.
pub proof fn lemma_dark_sums_hold_no_light<K: Arithmetic>(n: nat, jobs: nat, per_job: nat)
    requires
        sum::<K>(of_bits(0), of_bits(0)) == of_bits(0),
    ensures
        dark_total::<K>(per_job) == Color::black(),
        dark_accumulator::<K>(n, jobs, per_job) == darkness(n),
    decreases jobs, per_job,
{
    if per_job > 0 {
        lemma_dark_sums_hold_no_light::<K>(n, 0, (per_job - 1) as nat);
        assert(darkness(per_job).drop_last() =~= darkness((per_job - 1) as nat));
    }
    if jobs > 0 {
        lemma_dark_sums_hold_no_light::<K>(n, (jobs - 1) as nat, per_job);
        assert(dark_accumulator::<K>(n, jobs, per_job) =~= darkness(n));
    }
}

} // verus!
