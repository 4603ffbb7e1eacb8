//! Colours, surface materials, and what a surface does to a light path.

use vstd::prelude::*;
use crate::arith::difference;
use crate::arith::difference_defined;
use crate::arith::exact;
use crate::arith::minus;
use crate::arith::negate;
use crate::arith::negation;
use crate::arith::over;
use crate::arith::plus;
use crate::arith::power_of;
use crate::arith::powi;
use crate::arith::product;
use crate::arith::product_defined;
use crate::arith::quotient;
use crate::arith::quotient_defined;
use crate::arith::sqrt;
use crate::arith::square_root;
use crate::arith::square_root_defined;
use crate::arith::sum;
use crate::arith::sum_defined;
use crate::arith::times;
use crate::arith::Arithmetic;
use crate::math::dot;
use crate::math::of_bits;
use crate::math::spec_dot;
use crate::math::spec_translate;
use crate::math::translate;
use crate::math::Point;
use crate::math::Ray;
use crate::math::Vector;
use crate::math::TWO_BITS;
use crate::scalar::Scalar;
use crate::scalar::ONE_BITS;

verus! {

/// Bits of 1.5, the index of refraction of glass.
pub const GLASS_IOR_BITS: u32 = 0x3fc0_0000;

/// Bits of 1e-8, the distance by which a refracted ray is moved off the
/// surface that it has just passed.
pub const NUDGE_BITS: u32 = 0x322b_cc77;

/// Bits of 0.2.
pub const FIFTH_BITS: u32 = 0x3e4c_cccd;

/// Bits of 0.6.
pub const THREE_FIFTHS_BITS: u32 = 0x3f19_999a;

/// Bits of 0.8.
pub const FOUR_FIFTHS_BITS: u32 = 0x3f4c_cccd;

/// Bits of 0.9.
pub const NINE_TENTHS_BITS: u32 = 0x3f66_6666;

/// A source of chance.
///
/// Nothing is asked of an implementation but that it return: the library's
/// contracts say what holds whatever is drawn.
pub trait Sampler {
    /// A number from zero up to, but not including, one.
    fn uniform(&mut self) -> Scalar;

    /// A point of the ball of radius one around the origin, as a vector.
    fn in_unit_ball(&mut self) -> Vector;

    /// A point of the disk of radius one around the origin.
    fn in_unit_disk(&mut self) -> (Scalar, Scalar);
}

/// The coin lies where a uniform draw lies: it is at least zero and less
/// than one.
pub open spec fn unit(coin: Scalar) -> bool {
    coin.spec_ge(of_bits(0)) && coin.spec_lt(of_bits(ONE_BITS))
}

/// Whatever `R::uniform` gives lies where a uniform draw lies. This holds of
/// a sampler that says so of itself; of others nothing is known.
pub open spec fn draws_fairly<R: Sampler>() -> bool {
    forall|call: &mut R, coin: Scalar| call_ensures(R::uniform, (call,), coin) ==> unit(coin)
}

/// The coins are as a sampler gives them that draws fairly, if `fairly`
/// says that the sampler does so.
pub open spec fn tossed(fairly: bool, coin_reflect: Scalar, coin_refract: Scalar) -> bool {
    fairly ==> unit(coin_reflect) && unit(coin_refract)
}

/// Light in three channels.
#[derive(Clone, Copy, Debug)]
pub struct Color {
    pub red: Scalar,
    pub green: Scalar,
    pub blue: Scalar,
}

/// How a surface treats light.
#[derive(Clone, Copy, Debug)]
pub struct Material {
    /// Share of the incoming light that a diffuse bounce keeps.
    pub diffuse: Color,
    /// Light that the surface gives off. A surface with any of it is a light
    /// source, whatever the other fields say.
    pub emissive: Color,
    /// Index of refraction of the medium behind the surface.
    pub ior: Scalar,
    /// Chance that light which was not mirrored passes into the medium.
    pub transparency: Scalar,
}

/// A light path under construction, followed from the camera into the scene.
#[derive(Clone, Copy, Debug)]
pub struct LightRay {
    /// The segment that is followed next.
    pub ray: Ray,
    /// What the path so far lets through, per channel.
    pub light: Color,
    /// Index of refraction of the medium the segment travels in.
    pub ior: Scalar,
    /// Number of surfaces met so far.
    pub count: i32,
    /// The path has reached a light source and ends here.
    pub done: bool,
}

impl Color {
    /// No light at all.
    pub open spec fn black() -> Color {
        Color { red: of_bits(0), green: of_bits(0), blue: of_bits(0) }
    }

    /// Full light in every channel.
    pub open spec fn white() -> Color {
        Color { red: of_bits(ONE_BITS), green: of_bits(ONE_BITS), blue: of_bits(ONE_BITS) }
    }

    /// Some channel is not zero.
    pub open spec fn lit(self) -> bool {
        self.red.spec_nonzero() || self.blue.spec_nonzero() || self.green.spec_nonzero()
    }

    /// The product, channel by channel.
    pub open spec fn spec_times<K: Arithmetic>(self, rhs: Color) -> Color {
        Color {
            red: product::<K>(self.red, rhs.red),
            green: product::<K>(self.green, rhs.green),
            blue: product::<K>(self.blue, rhs.blue),
        }
    }

    /// Each channel multiplied by `factor`, the factor on the right.
    pub open spec fn spec_scaled<K: Arithmetic>(self, factor: Scalar) -> Color {
        Color {
            red: product::<K>(self.red, factor),
            green: product::<K>(self.green, factor),
            blue: product::<K>(self.blue, factor),
        }
    }

    /// The sum, channel by channel.
    pub open spec fn spec_plus<K: Arithmetic>(self, rhs: Color) -> Color {
        Color {
            red: sum::<K>(self.red, rhs.red),
            green: sum::<K>(self.green, rhs.green),
            blue: sum::<K>(self.blue, rhs.blue),
        }
    }

    /// No light at all.
    pub fn dark() -> (c: Color)
        ensures
            c == Color::black(),
    {
        Color { red: Scalar::zero(), green: Scalar::zero(), blue: Scalar::zero() }
    }

    /// `self * rhs`, channel by channel.
    pub fn times<K: Arithmetic>(self, rhs: Color) -> (c: Color)
        requires
            product_defined::<K>(),
        ensures
            c == self.spec_times::<K>(rhs),
    {
        Color {
            red: times::<K>(self.red, rhs.red),
            green: times::<K>(self.green, rhs.green),
            blue: times::<K>(self.blue, rhs.blue),
        }
    }

    /// `self * factor`.
    pub fn scaled<K: Arithmetic>(self, factor: Scalar) -> (c: Color)
        requires
            product_defined::<K>(),
        ensures
            c == self.spec_scaled::<K>(factor),
    {
        Color {
            red: times::<K>(self.red, factor),
            green: times::<K>(self.green, factor),
            blue: times::<K>(self.blue, factor),
        }
    }

    /// `self + rhs`, channel by channel.
    pub fn plus<K: Arithmetic>(self, rhs: Color) -> (c: Color)
        requires
            sum_defined::<K>(),
        ensures
            c == self.spec_plus::<K>(rhs),
    {
        Color {
            red: plus::<K>(self.red, rhs.red),
            green: plus::<K>(self.green, rhs.green),
            blue: plus::<K>(self.blue, rhs.blue),
        }
    }

    /// Adds `rhs` to `self` in place.
    pub fn accumulate<K: Arithmetic>(&mut self, rhs: Color)
        requires
            sum_defined::<K>(),
        ensures
            *final(self) == old(self).spec_plus::<K>(rhs),
    {
        *self = Color {
            red: plus::<K>(self.red, rhs.red),
            green: plus::<K>(self.green, rhs.green),
            blue: plus::<K>(self.blue, rhs.blue),
        }
    }
}

/// The direction of `direction` after a mirror with unit normal `normal`:
/// `d - 2 (d . n) n`, worked out as `d + 2 c n` with `c = -(d . n)`, the
/// cosine of the angle of incidence.
pub open spec fn spec_reflection<K: Arithmetic>(direction: Vector, normal: Vector) -> Vector {
    let cos_theta = negation(spec_dot::<K>(direction, normal));
    direction.spec_plus::<K>(normal.spec_scaled::<K>(product::<K>(of_bits(TWO_BITS), cos_theta)))
}

/// The square of the sine of the angle behind the surface, by Snell's law:
/// `r^2 (1 - c^2)` with `r = in_ior / out_ior` and `c = -(n . d)`.
pub open spec fn sin2_behind<K: Arithmetic>(
    in_ior: Scalar,
    out_ior: Scalar,
    in_direction: Vector,
    normal: Vector,
) -> Scalar {
    let r = quotient::<K>(in_ior, out_ior);
    let cos_theta = negation(spec_dot::<K>(normal, in_direction));
    product::<K>(
        product::<K>(r, r),
        difference::<K>(of_bits(ONE_BITS), product::<K>(cos_theta, cos_theta)),
    )
}

/// The direction of light that passes from a medium of index `in_ior` into
/// one of index `out_ior`. Where Snell's law leaves no angle, because the
/// squared sine would exceed one, the light is mirrored instead. Otherwise it
/// is `r d + (r c - sqrt(1 - s)) n`, with `s` the squared sine behind the
/// surface.
pub open spec fn spec_refraction<K: Arithmetic>(
    in_ior: Scalar,
    out_ior: Scalar,
    in_direction: Vector,
    normal: Vector,
) -> Vector {
    let r = quotient::<K>(in_ior, out_ior);
    let cos_theta = negation(spec_dot::<K>(normal, in_direction));
    let sin2_theta = sin2_behind::<K>(in_ior, out_ior, in_direction, normal);
    if sin2_theta.spec_gt(of_bits(ONE_BITS)) {
        spec_reflection::<K>(in_direction, normal)
    } else {
        in_direction.spec_scaled::<K>(r).spec_plus::<K>(
            normal.spec_scaled::<K>(
                difference::<K>(
                    product::<K>(r, cos_theta),
                    square_root::<K>(difference::<K>(of_bits(ONE_BITS), sin2_theta)),
                ),
            ),
        )
    }
}

/// The share of light that a surface mirrors, by Schlick's approximation:
/// `r0 + (1 - r0) f`, where `r0` stands for `((in - out) / (in + out))^2` and
/// `f` for `(1 - c)^5`.
pub open spec fn schlick<K: Arithmetic>(squared: Scalar, fifth: Scalar) -> Scalar {
    sum::<K>(squared, product::<K>(difference::<K>(of_bits(ONE_BITS), squared), fifth))
}

/// `r` is a share of light that a surface mirrors, by Schlick's
/// approximation, for some results of the two powers in it.
pub open spec fn reflection_coefficient_is<K: Arithmetic>(
    in_ior: Scalar,
    out_ior: Scalar,
    cos_theta: Scalar,
    r: Scalar,
) -> bool {
    exists|squared: Scalar, fifth: Scalar|
        {
            &&& power_of::<K>(
                quotient::<K>(difference::<K>(in_ior, out_ior), sum::<K>(in_ior, out_ior)),
                2,
                squared,
            )
            &&& power_of::<K>(difference::<K>(of_bits(ONE_BITS), cos_theta), 5, fifth)
            &&& r == #[trigger] schlick::<K>(squared, fifth)
        }
}

/// The ray that leaves `start` along `v`, made a unit vector and turned to
/// the side of `normal`.
pub open spec fn spec_half_sphere_ray<K: Arithmetic>(start: Point, normal: Vector, v: Vector) -> Ray {
    if spec_dot::<K>(v, normal).spec_gt(of_bits(0)) {
        Ray { origin: start, direction: v.spec_normalize::<K>() }
    } else {
        Ray { origin: start, direction: v.spec_normalize::<K>().spec_negated() }
    }
}

/// The point with coordinates `2 u - 1` for the three draws, if it lies
/// strictly inside the ball of radius one.
pub open spec fn spec_ball_candidate<K: Arithmetic>(u: (Scalar, Scalar, Scalar)) -> Option<Vector> {
    let v = Vector {
        x: difference::<K>(product::<K>(of_bits(TWO_BITS), u.0), of_bits(ONE_BITS)),
        y: difference::<K>(product::<K>(of_bits(TWO_BITS), u.1), of_bits(ONE_BITS)),
        z: difference::<K>(product::<K>(of_bits(TWO_BITS), u.2), of_bits(ONE_BITS)),
    };
    if v.spec_square_length::<K>().spec_lt(of_bits(ONE_BITS)) {
        Some(v)
    } else {
        None
    }
}

/// Where light goes that is mirrored.
pub fn reflection<K: Arithmetic>(direction: Vector, normal: Vector) -> (v: Vector)
    requires
        sum_defined::<K>(),
        product_defined::<K>(),
    ensures
        v == spec_reflection::<K>(direction, normal),
{
    let cos_theta = negate(dot::<K>(direction, normal));
    direction.plus::<K>(normal.scaled::<K>(times::<K>(Scalar::from_bits(TWO_BITS), cos_theta)))
}

/// Where light goes that passes through a surface.
pub fn refraction<K: Arithmetic>(
    in_ior: Scalar,
    out_ior: Scalar,
    in_direction: Vector,
    normal: Vector,
) -> (v: Vector)
    requires
        exact::<K>(),
    ensures
        v == spec_refraction::<K>(in_ior, out_ior, in_direction, normal),
{
    let one = Scalar::one();
    let r = over::<K>(in_ior, out_ior);
    let cos_theta = negate(dot::<K>(normal, in_direction));
    let sin2_theta = times::<K>(times::<K>(r, r), minus::<K>(one, times::<K>(cos_theta, cos_theta)));
    if sin2_theta.gt(one) {
        reflection::<K>(in_direction, normal)
    } else {
        in_direction.scaled::<K>(r).plus::<K>(
            normal.scaled::<K>(
                minus::<K>(times::<K>(r, cos_theta), sqrt::<K>(minus::<K>(one, sin2_theta))),
            ),
        )
    }
}

/// The share of light that a surface mirrors, with the powers as the
/// machine gives them this time.
pub fn reflection_coefficient<K: Arithmetic>(in_ior: Scalar, out_ior: Scalar, cos_theta: Scalar) -> (r:
    Scalar)
    requires
        sum_defined::<K>(),
        difference_defined::<K>(),
        product_defined::<K>(),
        quotient_defined::<K>(),
    ensures
        reflection_coefficient_is::<K>(in_ior, out_ior, cos_theta, r),
{
    let one = Scalar::one();
    let r0 = powi::<K>(over::<K>(minus::<K>(in_ior, out_ior), plus::<K>(in_ior, out_ior)), 2);
    let fifth = powi::<K>(minus::<K>(one, cos_theta), 5);
    let r = plus::<K>(r0, times::<K>(minus::<K>(one, r0), fifth));
    assert(r == schlick::<K>(r0, fifth));
    r
}

/// A ray from `start` into the half of space that `normal` points to. Its
/// direction is that of a point drawn from the unit ball, which makes all
/// directions of the half sphere equally likely.
pub fn generate_half_sphere_ray<K: Arithmetic, R: Sampler>(
    start: Point,
    normal: Vector,
    rng: &mut R,
) -> (ray: Ray)
    requires
        sum_defined::<K>(),
        product_defined::<K>(),
        quotient_defined::<K>(),
        square_root_defined::<K>(),
    ensures
        exists|v: Vector| ray == spec_half_sphere_ray::<K>(start, normal, v),
{
    let v = rng.in_unit_ball();
    half_sphere_ray::<K>(start, normal, v)
}

/// The ray from `start` along `v`, made a unit vector and turned to the side
/// of `normal`.
pub fn half_sphere_ray<K: Arithmetic>(start: Point, normal: Vector, v: Vector) -> (ray: Ray)
    requires
        sum_defined::<K>(),
        product_defined::<K>(),
        quotient_defined::<K>(),
        square_root_defined::<K>(),
    ensures
        ray == spec_half_sphere_ray::<K>(start, normal, v),
{
    if dot::<K>(v, normal).gt(Scalar::zero()) {
        Ray { origin: start, direction: v.normalize::<K>() }
    } else {
        Ray { origin: start, direction: v.normalize::<K>().negated() }
    }
}

/// One try at a point of the unit ball: three draws give a point of the cube
/// around it, which counts only if it lies strictly inside the ball. A
/// sampler repeats this until a point counts.
pub fn ball_candidate<K: Arithmetic>(u: (Scalar, Scalar, Scalar)) -> (v: Option<Vector>)
    requires
        sum_defined::<K>(),
        difference_defined::<K>(),
        product_defined::<K>(),
    ensures
        v == spec_ball_candidate::<K>(u),
{
    let two = Scalar::from_bits(TWO_BITS);
    let one = Scalar::one();
    let v = Vector {
        x: minus::<K>(times::<K>(two, u.0), one),
        y: minus::<K>(times::<K>(two, u.1), one),
        z: minus::<K>(times::<K>(two, u.2), one),
    };
    if v.square_length::<K>().lt(one) {
        Some(v)
    } else {
        None
    }
}

impl LightRay {
    /// The path after one more surface: a step further, along `ray`, with
    /// `light` let through, in a medium of index `ior`.
    pub open spec fn step(self, ray: Ray, light: Color, ior: Scalar, done: bool) -> LightRay {
        LightRay { ray, light, ior, count: (self.count + 1) as i32, done }
    }
}

impl Material {
    /// The surface gives off light.
    pub open spec fn emits(self) -> bool {
        self.emissive.lit()
    }

    /// The cosine of the angle between the incoming light and the normal.
    pub open spec fn cos_theta<K: Arithmetic>(ray: LightRay, normal: Vector) -> Scalar {
        negation(spec_dot::<K>(ray.ray.direction, normal))
    }

    /// `reflectance` is a share of the incoming light that the surface
    /// mirrors.
    pub open spec fn reflects<K: Arithmetic>(
        self,
        ray: LightRay,
        normal: Vector,
        reflectance: Scalar,
    ) -> bool {
        reflection_coefficient_is::<K>(
            ray.ior,
            self.ior,
            Self::cos_theta::<K>(ray, normal),
            reflectance,
        )
    }

    /// The path ends on a light source: what it let through so far is
    /// weighted with the light of the source.
    pub open spec fn emitted<K: Arithmetic>(self, ray: LightRay, point: Point, normal: Vector) -> LightRay {
        ray.step(
            Ray { origin: point, direction: normal },
            ray.light.spec_times::<K>(self.emissive),
            ray.ior,
            true,
        )
    }

    /// The path is mirrored: it goes on from the point of the hit, with its
    /// light and its medium unchanged.
    pub open spec fn mirrored<K: Arithmetic>(ray: LightRay, point: Point, normal: Vector) -> LightRay {
        ray.step(
            Ray { origin: point, direction: spec_reflection::<K>(ray.ray.direction, normal) },
            ray.light,
            ray.ior,
            false,
        )
    }

    /// The path passes through the surface. It enters the medium of the
    /// material, or leaves it for the void, of index one, if the hit came
    /// from inside. The new segment starts a little way along its direction,
    /// off the surface.
    pub open spec fn refracted<K: Arithmetic>(
        self,
        ray: LightRay,
        point: Point,
        normal: Vector,
        inside: bool,
    ) -> LightRay {
        let direction = spec_refraction::<K>(ray.ior, self.ior, ray.ray.direction, normal);
        ray.step(
            Ray {
                origin: spec_translate::<K>(
                    point,
                    direction.spec_scaled::<K>(of_bits(NUDGE_BITS)),
                ),
                direction,
            },
            ray.light,
            if inside {
                of_bits(ONE_BITS)
            } else {
                self.ior
            },
            false,
        )
    }

    /// The path is scattered into the half of space above the surface, in
    /// the direction of `v`, and keeps the diffuse share of its light.
    pub open spec fn diffused<K: Arithmetic>(
        self,
        ray: LightRay,
        point: Point,
        normal: Vector,
        v: Vector,
    ) -> LightRay {
        ray.step(
            spec_half_sphere_ray::<K>(point, normal, v),
            self.diffuse.spec_times::<K>(ray.light),
            ray.ior,
            false,
        )
    }

    /// What becomes of a path on a surface that gives off no light, for a
    /// given reflectance and given draws: `coin_reflect` decides between
    /// mirroring and the rest, `coin_refract` between passing through and
    /// scattering, and `v` is the point of the unit ball that gives a
    /// scattered path its direction.
    ///
    /// The path is mirrored if `coin_reflect` is less than the reflectance.
    /// Failing that, it passes through if the material has any transparency
    /// and `coin_refract` is less than it. Otherwise it is scattered.
    pub open spec fn scattered<K: Arithmetic>(
        self,
        ray: LightRay,
        point: Point,
        normal: Vector,
        inside: bool,
        reflectance: Scalar,
        coin_reflect: Scalar,
        coin_refract: Scalar,
        v: Vector,
    ) -> LightRay {
        if coin_reflect.spec_lt(reflectance) {
            Self::mirrored::<K>(ray, point, normal)
        } else if self.transparency.spec_gt(of_bits(0)) && coin_refract.spec_lt(
            self.transparency,
        ) {
            self.refracted::<K>(ray, point, normal, inside)
        } else {
            self.diffused::<K>(ray, point, normal, v)
        }
    }

    /// A material that scatters, mirrors and lets through, and gives off no
    /// light.
    pub fn create(diffuse: Color, ior: Scalar, transparency: Scalar) -> (m: Material)
        ensures
            m == (Material { diffuse, emissive: Color::black(), ior, transparency }),
    {
        Material { diffuse, ior, transparency, emissive: Color::dark() }
    }

    /// A light source.
    pub fn create_emissive(emissive: Color) -> (m: Material)
        ensures
            m == (Material {
                diffuse: Color::black(),
                emissive,
                ior: of_bits(ONE_BITS),
                transparency: of_bits(0),
            }),
    {
        Material {
            diffuse: Color::dark(),
            ior: Scalar::one(),
            transparency: Scalar::zero(),
            emissive,
        }
    }

    /// Clear glass: it lets through whatever it does not mirror.
    pub fn create_glass() -> (m: Material)
        ensures
            m == (Material {
                diffuse: Color::black(),
                emissive: Color::black(),
                ior: of_bits(GLASS_IOR_BITS),
                transparency: of_bits(ONE_BITS),
            }),
    {
        Material {
            diffuse: Color::dark(),
            ior: Scalar::from_bits(GLASS_IOR_BITS),
            transparency: Scalar::one(),
            emissive: Color::dark(),
        }
    }

    /// An opaque surface in pale cyan, `(0.2, 1.0, 1.0)`.
    pub fn create_colored_1() -> (m: Material)
        ensures
            m == (Material {
                diffuse: Color {
                    red: of_bits(FIFTH_BITS),
                    green: of_bits(ONE_BITS),
                    blue: of_bits(ONE_BITS),
                },
                emissive: Color::black(),
                ior: of_bits(GLASS_IOR_BITS),
                transparency: of_bits(0),
            }),
    {
        Material {
            diffuse: Color {
                red: Scalar::from_bits(FIFTH_BITS),
                green: Scalar::one(),
                blue: Scalar::one(),
            },
            ior: Scalar::from_bits(GLASS_IOR_BITS),
            transparency: Scalar::zero(),
            emissive: Color::dark(),
        }
    }

    /// An opaque surface in amber, `(1.0, 0.8, 0.2)`.
    pub fn create_colored_2() -> (m: Material)
        ensures
            m == (Material {
                diffuse: Color {
                    red: of_bits(ONE_BITS),
                    green: of_bits(FOUR_FIFTHS_BITS),
                    blue: of_bits(FIFTH_BITS),
                },
                emissive: Color::black(),
                ior: of_bits(GLASS_IOR_BITS),
                transparency: of_bits(0),
            }),
    {
        Material {
            diffuse: Color {
                red: Scalar::one(),
                green: Scalar::from_bits(FOUR_FIFTHS_BITS),
                blue: Scalar::from_bits(FIFTH_BITS),
            },
            ior: Scalar::from_bits(GLASS_IOR_BITS),
            transparency: Scalar::zero(),
            emissive: Color::dark(),
        }
    }

    /// An opaque surface in lilac, `(0.9, 0.6, 1.0)`.
    pub fn create_colored_3() -> (m: Material)
        ensures
            m == (Material {
                diffuse: Color {
                    red: of_bits(NINE_TENTHS_BITS),
                    green: of_bits(THREE_FIFTHS_BITS),
                    blue: of_bits(ONE_BITS),
                },
                emissive: Color::black(),
                ior: of_bits(GLASS_IOR_BITS),
                transparency: of_bits(0),
            }),
    {
        Material {
            diffuse: Color {
                red: Scalar::from_bits(NINE_TENTHS_BITS),
                green: Scalar::from_bits(THREE_FIFTHS_BITS),
                blue: Scalar::one(),
            },
            ior: Scalar::from_bits(GLASS_IOR_BITS),
            transparency: Scalar::zero(),
            emissive: Color::dark(),
        }
    }

    /// Whether the surface gives off light.
    pub fn is_emissive(&self) -> (r: bool)
        ensures
            r == self.emits(),
    {
        self.emissive.red.nonzero() || self.emissive.blue.nonzero()
            || self.emissive.green.nonzero()
    }

    /// The path that ends on this light source.
    pub fn emit<K: Arithmetic>(&self, ray: LightRay, point: Point, normal: Vector) -> (next:
        LightRay)
        requires
            product_defined::<K>(),
            ray.count < i32::MAX,
        ensures
            next == self.emitted::<K>(ray, point, normal),
    {
        LightRay {
            ray: Ray { origin: point, direction: normal },
            light: ray.light.times::<K>(self.emissive),
            ior: ray.ior,
            count: ray.count + 1,
            done: true,
        }
    }

    /// The path after the surface has mirrored it.
    pub fn mirror<K: Arithmetic>(ray: LightRay, point: Point, normal: Vector) -> (next: LightRay)
        requires
            sum_defined::<K>(),
            product_defined::<K>(),
            ray.count < i32::MAX,
        ensures
            next == Self::mirrored::<K>(ray, point, normal),
    {
        LightRay {
            ray: Ray { origin: point, direction: reflection::<K>(ray.ray.direction, normal) },
            light: ray.light,
            ior: ray.ior,
            count: ray.count + 1,
            done: false,
        }
    }

    /// The path after it has passed through the surface.
    pub fn refract<K: Arithmetic>(
        &self,
        ray: LightRay,
        point: Point,
        normal: Vector,
        inside: bool,
    ) -> (next: LightRay)
        requires
            exact::<K>(),
            ray.count < i32::MAX,
        ensures
            next == self.refracted::<K>(ray, point, normal, inside),
    {
        let mut new_ray = LightRay {
            ray: Ray {
                origin: point,
                direction: refraction::<K>(ray.ior, self.ior, ray.ray.direction, normal),
            },
            light: ray.light,
            ior: if inside {
                Scalar::one()
            } else {
                self.ior
            },
            count: ray.count + 1,
            done: false,
        };
        new_ray.ray.origin = translate::<K>(
            new_ray.ray.origin,
            new_ray.ray.direction.scaled::<K>(Scalar::from_bits(NUDGE_BITS)),
        );
        new_ray
    }

    /// The path after the surface has scattered it along `scattered_ray`.
    fn diffuse_along<K: Arithmetic>(&self, ray: LightRay, scattered_ray: Ray) -> (next: LightRay)
        requires
            product_defined::<K>(),
            ray.count < i32::MAX,
        ensures
            next == ray.step(scattered_ray, self.diffuse.spec_times::<K>(ray.light), ray.ior, false),
    {
        LightRay {
            ray: scattered_ray,
            light: self.diffuse.times::<K>(ray.light),
            ior: ray.ior,
            count: ray.count + 1,
            done: false,
        }
    }

    /// The path after the surface has scattered it in the direction of `v`, a
    /// point of the unit ball.
    pub fn diffuse<K: Arithmetic>(&self, ray: LightRay, point: Point, normal: Vector, v: Vector) -> (next:
        LightRay)
        requires
            sum_defined::<K>(),
            product_defined::<K>(),
            quotient_defined::<K>(),
            square_root_defined::<K>(),
            ray.count < i32::MAX,
        ensures
            next == self.diffused::<K>(ray, point, normal, v),
    {
        self.diffuse_along::<K>(ray, half_sphere_ray::<K>(point, normal, v))
    }

    /// What becomes of a path on a surface that gives off no light, for a
    /// reflectance and draws that are given: the decision that `new_ray`
    /// makes, with nothing left to chance or to the machine.
    pub fn scatter<K: Arithmetic>(
        &self,
        ray: LightRay,
        point: Point,
        normal: Vector,
        inside: bool,
        reflectance: Scalar,
        coin_reflect: Scalar,
        coin_refract: Scalar,
        v: Vector,
    ) -> (next: LightRay)
        requires
            exact::<K>(),
                ray.count < i32::MAX,
        ensures
            next == self.scattered::<K>(
                ray,
                point,
                normal,
                inside,
                reflectance,
                coin_reflect,
                coin_refract,
                v,
            ),
    {
        if coin_reflect.lt(reflectance) {
            Self::mirror::<K>(ray, point, normal)
        } else if self.transparency.gt(Scalar::zero()) && coin_refract.lt(self.transparency) {
            self.refract::<K>(ray, point, normal, inside)
        } else {
            self.diffuse::<K>(ray, point, normal, v)
        }
    }

    /// Carries a light path over a surface of this material, hit at `point`
    /// with unit normal `normal`; `inside` says that the hit came from within
    /// the primitive.
    ///
    /// A light source ends the path, whatever else the material is. Any other
    /// surface mirrors the path, lets it through or scatters it, by chance:
    /// the outcome is that of `scatter` for the reflectance as the machine
    /// gave it and for the values that were drawn, which are coins from zero
    /// up to one if the sampler draws fairly. The
    /// first draw is made only on a surface that gives off no light, the
    /// second only if the first did not mirror the path and the material has
    /// some transparency, and a point of the unit ball is drawn only for a
    /// path that is scattered.
    pub fn new_ray<K: Arithmetic, R: Sampler>(
        &self,
        ray: LightRay,
        point: Point,
        normal: Vector,
        inside: bool,
        rng: &mut R,
    ) -> (next: LightRay)
        requires
            exact::<K>(),
                ray.count < i32::MAX,
        ensures
            next.count == ray.count + 1,
            next.done == self.emits(),
            self.emits() ==> next == self.emitted::<K>(ray, point, normal),
            self.emits() ==> *final(rng) == *old(rng),
            !self.emits() ==> exists|
                reflectance: Scalar,
                coin_reflect: Scalar,
                coin_refract: Scalar,
                v: Vector,
            |
                self.reflects::<K>(ray, normal, reflectance) && tossed(
                    draws_fairly::<R>(),
                    coin_reflect,
                    coin_refract,
                ) && next
                    == #[trigger] self.scattered::<K>(
                    ray,
                    point,
                    normal,
                    inside,
                    reflectance,
                    coin_reflect,
                    coin_refract,
                    v,
                ),
    {
        let incoming_direction = ray.ray.direction;
        let cos_theta = negate(dot::<K>(incoming_direction, normal));
        if self.is_emissive() {
            return self.emit::<K>(ray, point, normal);
        }
        let ghost nowhere = Vector { x: of_bits(0), y: of_bits(0), z: of_bits(0) };
        let coin_reflect = rng.uniform();
        let reflectance = reflection_coefficient::<K>(ray.ior, self.ior, cos_theta);
        if coin_reflect.lt(reflectance) {
            let next = Self::mirror::<K>(ray, point, normal);
            assert(next == self.scattered::<K>(
                ray,
                point,
                normal,
                inside,
                reflectance,
                coin_reflect,
                of_bits(0),
                nowhere,
            ));
            return next;
        }
        let mut coin_refract = Scalar::zero();
        if self.transparency.gt(Scalar::zero()) {
            coin_refract = rng.uniform();
        }
        if self.transparency.gt(Scalar::zero()) && coin_refract.lt(self.transparency) {
            let next = self.refract::<K>(ray, point, normal, inside);
            assert(next == self.scattered::<K>(
                ray,
                point,
                normal,
                inside,
                reflectance,
                coin_reflect,
                coin_refract,
                nowhere,
            ));
            next
        } else {
            let scattered_ray = generate_half_sphere_ray::<K, R>(point, normal, rng);
            let next = self.diffuse_along::<K>(ray, scattered_ray);
            proof {
                let v = choose|v: Vector| scattered_ray == spec_half_sphere_ray::<K>(point, normal, v);
                assert(next == self.scattered::<K>(
                    ray,
                    point,
                    normal,
                    inside,
                    reflectance,
                    coin_reflect,
                    coin_refract,
                    v,
                ));
            }
            next
        }
    }
}

} // verus!
