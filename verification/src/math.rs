//! Points, directions and rays, and the primitives that a ray can meet.
//!
//! Every formula here is stated over the operations of an `Arithmetic`: the
//! contracts say which operations are applied to which operands, in which
//! order, and which comparisons decide a hit.

use vstd::prelude::*;
use crate::arith::difference;
use crate::arith::difference_defined;
use crate::arith::exact;
use crate::arith::minus;
use crate::arith::negate;
use crate::arith::negation;
use crate::arith::over;
use crate::arith::plus;
use crate::arith::product;
use crate::arith::product_defined;
use crate::arith::quotient;
use crate::arith::quotient_defined;
use crate::arith::sqrt;
use crate::arith::square_root;
use crate::arith::square_root_defined;
use crate::arith::sum;
use crate::arith::sum_defined;
use crate::arith::times;
use crate::arith::Arithmetic;
use crate::scalar::Scalar;

verus! {

/// Bits of 2.0.
pub const TWO_BITS: u32 = 0x4000_0000;

/// Bits of 4.0.
pub const FOUR_BITS: u32 = 0x4080_0000;

/// The value with the given bits.
pub open spec fn of_bits(bits: u32) -> Scalar {
    Scalar { bits }
}

/// A position in space.
#[derive(Clone, Copy, Debug)]
pub struct Point {
    pub x: Scalar,
    pub y: Scalar,
    pub z: Scalar,
}

/// A displacement or a direction.
#[derive(Clone, Copy, Debug)]
pub struct Vector {
    pub x: Scalar,
    pub y: Scalar,
    pub z: Scalar,
}

/// A half-line. Whoever builds one takes care that `direction` has unit
/// length; the intersection routines rely on it and do not check it.
#[derive(Clone, Copy, Debug)]
pub struct Ray {
    pub origin: Point,
    pub direction: Vector,
}

/// Where a ray meets a surface.
#[derive(Clone, Copy, Debug)]
pub struct Intersection {
    /// The point that was hit.
    pub point: Point,
    /// Unit normal at that point, turned against the incoming ray.
    pub normal: Vector,
    /// The ray parameter of the hit.
    pub distance: Scalar,
    /// The ray started inside the primitive.
    pub inside: bool,
}

/// A ball.
#[derive(Clone, Copy, Debug)]
pub struct Sphere {
    pub center: Point,
    pub radius: Scalar,
}

/// A plane through `point`; `normal` has unit length and points to the side
/// from which the plane can be seen.
#[derive(Clone, Copy, Debug)]
pub struct Plane {
    pub point: Point,
    pub normal: Vector,
}

/// `p` moved by `v`.
pub open spec fn spec_translate<K: Arithmetic>(p: Point, v: Vector) -> Point {
    Point { x: sum::<K>(p.x, v.x), y: sum::<K>(p.y, v.y), z: sum::<K>(p.z, v.z) }
}

/// The scalar product, summed from the first coordinate to the last.
pub open spec fn spec_dot<K: Arithmetic>(v1: Vector, v2: Vector) -> Scalar {
    sum::<K>(
        sum::<K>(product::<K>(v1.x, v2.x), product::<K>(v1.y, v2.y)),
        product::<K>(v1.z, v2.z),
    )
}

/// The vector product.
pub open spec fn spec_cross<K: Arithmetic>(v1: Vector, v2: Vector) -> Vector {
    Vector {
        x: difference::<K>(product::<K>(v1.y, v2.z), product::<K>(v1.z, v2.y)),
        y: difference::<K>(product::<K>(v1.z, v2.x), product::<K>(v1.x, v2.z)),
        z: difference::<K>(product::<K>(v1.x, v2.y), product::<K>(v1.y, v2.x)),
    }
}

impl Point {
    /// The displacement that leads from `rhs` to `self`.
    pub open spec fn spec_minus<K: Arithmetic>(self, rhs: Point) -> Vector {
        Vector {
            x: difference::<K>(self.x, rhs.x),
            y: difference::<K>(self.y, rhs.y),
            z: difference::<K>(self.z, rhs.z),
        }
    }

    /// The point with the given coordinates.
    pub fn new(x: Scalar, y: Scalar, z: Scalar) -> (p: Point)
        ensures
            p == (Point { x, y, z }),
    {
        Point { x, y, z }
    }

    /// The origin of the coordinate system.
    pub fn origin() -> (p: Point)
        ensures
            p == (Point { x: of_bits(0), y: of_bits(0), z: of_bits(0) }),
    {
        Point { x: Scalar::zero(), y: Scalar::zero(), z: Scalar::zero() }
    }

    /// The displacement that leads from `rhs` to `self`.
    pub fn minus<K: Arithmetic>(self, rhs: Point) -> (v: Vector)
        requires
            difference_defined::<K>(),
        ensures
            v == self.spec_minus::<K>(rhs),
    {
        Vector {
            x: minus::<K>(self.x, rhs.x),
            y: minus::<K>(self.y, rhs.y),
            z: minus::<K>(self.z, rhs.z),
        }
    }
}

impl Vector {
    /// The sum of the squares of the coordinates.
    pub open spec fn spec_square_length<K: Arithmetic>(self) -> Scalar {
        sum::<K>(
            sum::<K>(product::<K>(self.x, self.x), product::<K>(self.y, self.y)),
            product::<K>(self.z, self.z),
        )
    }

    /// The root of the squared length.
    pub open spec fn spec_length<K: Arithmetic>(self) -> Scalar {
        square_root::<K>(self.spec_square_length::<K>())
    }

    /// Each coordinate divided by the length.
    pub open spec fn spec_normalize<K: Arithmetic>(self) -> Vector {
        let l = self.spec_length::<K>();
        Vector {
            x: quotient::<K>(self.x, l),
            y: quotient::<K>(self.y, l),
            z: quotient::<K>(self.z, l),
        }
    }

    /// The sum, coordinate by coordinate.
    pub open spec fn spec_plus<K: Arithmetic>(self, rhs: Vector) -> Vector {
        Vector {
            x: sum::<K>(self.x, rhs.x),
            y: sum::<K>(self.y, rhs.y),
            z: sum::<K>(self.z, rhs.z),
        }
    }

    /// The difference, coordinate by coordinate.
    pub open spec fn spec_minus<K: Arithmetic>(self, rhs: Vector) -> Vector {
        Vector {
            x: difference::<K>(self.x, rhs.x),
            y: difference::<K>(self.y, rhs.y),
            z: difference::<K>(self.z, rhs.z),
        }
    }

    /// The vector of the same length that points the other way.
    pub open spec fn spec_negated(self) -> Vector {
        Vector { x: negation(self.x), y: negation(self.y), z: negation(self.z) }
    }

    /// Each coordinate multiplied by `factor`, the factor on the left.
    pub open spec fn spec_scaled<K: Arithmetic>(self, factor: Scalar) -> Vector {
        Vector {
            x: product::<K>(factor, self.x),
            y: product::<K>(factor, self.y),
            z: product::<K>(factor, self.z),
        }
    }

    /// The vector with the given coordinates.
    pub fn new(x: Scalar, y: Scalar, z: Scalar) -> (v: Vector)
        ensures
            v == (Vector { x, y, z }),
    {
        Vector { x, y, z }
    }

    /// The vector of length one in the same direction. A vector of length
    /// zero has no direction: what comes back then is whatever the division
    /// by zero gives.
    pub fn normalize<K: Arithmetic>(self) -> (v: Vector)
        requires
            sum_defined::<K>(),
            product_defined::<K>(),
            quotient_defined::<K>(),
            square_root_defined::<K>(),
        ensures
            v == self.spec_normalize::<K>(),
    {
        let l = self.length::<K>();
        Vector { x: over::<K>(self.x, l), y: over::<K>(self.y, l), z: over::<K>(self.z, l) }
    }

    /// The length.
    pub fn length<K: Arithmetic>(self) -> (l: Scalar)
        requires
            sum_defined::<K>(),
            product_defined::<K>(),
            square_root_defined::<K>(),
        ensures
            l == self.spec_length::<K>(),
    {
        sqrt::<K>(self.square_length::<K>())
    }

    /// The square of the length, which orders vectors as the length does and
    /// needs no root.
    pub fn square_length<K: Arithmetic>(self) -> (l: Scalar)
        requires
            sum_defined::<K>(),
            product_defined::<K>(),
        ensures
            l == self.spec_square_length::<K>(),
    {
        plus::<K>(
            plus::<K>(times::<K>(self.x, self.x), times::<K>(self.y, self.y)),
            times::<K>(self.z, self.z),
        )
    }

    /// `self + rhs`.
    pub fn plus<K: Arithmetic>(self, rhs: Vector) -> (v: Vector)
        requires
            sum_defined::<K>(),
        ensures
            v == self.spec_plus::<K>(rhs),
    {
        Vector {
            x: plus::<K>(self.x, rhs.x),
            y: plus::<K>(self.y, rhs.y),
            z: plus::<K>(self.z, rhs.z),
        }
    }

    /// `self - rhs`.
    pub fn minus<K: Arithmetic>(self, rhs: Vector) -> (v: Vector)
        requires
            difference_defined::<K>(),
        ensures
            v == self.spec_minus::<K>(rhs),
    {
        Vector {
            x: minus::<K>(self.x, rhs.x),
            y: minus::<K>(self.y, rhs.y),
            z: minus::<K>(self.z, rhs.z),
        }
    }

    /// `-self`.
    pub fn negated(self) -> (v: Vector)
        ensures
            v == self.spec_negated(),
    {
        Vector { x: negate(self.x), y: negate(self.y), z: negate(self.z) }
    }

    /// `factor * self`.
    pub fn scaled<K: Arithmetic>(self, factor: Scalar) -> (v: Vector)
        requires
            product_defined::<K>(),
        ensures
            v == self.spec_scaled::<K>(factor),
    {
        Vector {
            x: times::<K>(factor, self.x),
            y: times::<K>(factor, self.y),
            z: times::<K>(factor, self.z),
        }
    }
}

/// `p` moved by `v`.
pub fn translate<K: Arithmetic>(p: Point, v: Vector) -> (q: Point)
    requires
        sum_defined::<K>(),
    ensures
        q == spec_translate::<K>(p, v),
{
    Point { x: plus::<K>(p.x, v.x), y: plus::<K>(p.y, v.y), z: plus::<K>(p.z, v.z) }
}

/// The scalar product of `v1` and `v2`.
pub fn dot<K: Arithmetic>(v1: Vector, v2: Vector) -> (d: Scalar)
    requires
        sum_defined::<K>(),
        product_defined::<K>(),
    ensures
        d == spec_dot::<K>(v1, v2),
{
    plus::<K>(
        plus::<K>(times::<K>(v1.x, v2.x), times::<K>(v1.y, v2.y)),
        times::<K>(v1.z, v2.z),
    )
}

/// The vector product of `v1` and `v2`.
pub fn cross<K: Arithmetic>(v1: Vector, v2: Vector) -> (v: Vector)
    requires
        difference_defined::<K>(),
        product_defined::<K>(),
    ensures
        v == spec_cross::<K>(v1, v2),
{
    Vector {
        x: minus::<K>(times::<K>(v1.y, v2.z), times::<K>(v1.z, v2.y)),
        y: minus::<K>(times::<K>(v1.z, v2.x), times::<K>(v1.x, v2.z)),
        z: minus::<K>(times::<K>(v1.x, v2.y), times::<K>(v1.y, v2.x)),
    }
}

impl Ray {
    /// The ray from `origin` towards `through`.
    pub open spec fn spec_create<K: Arithmetic>(origin: Point, through: Point) -> Ray {
        Ray { origin, direction: through.spec_minus::<K>(origin).spec_normalize::<K>() }
    }

    /// The point of the ray at parameter `t`.
    pub open spec fn at<K: Arithmetic>(self, t: Scalar) -> Point {
        spec_translate::<K>(self.origin, self.direction.spec_scaled::<K>(t))
    }

    /// The ray that starts at `origin` and passes through `through`.
    pub fn create<K: Arithmetic>(origin: Point, through: Point) -> (ray: Ray)
        requires
            exact::<K>(),
        ensures
            ray == Ray::spec_create::<K>(origin, through),
    {
        let direction = through.minus::<K>(origin).normalize::<K>();
        Ray { origin, direction }
    }
}

impl Plane {
    /// How far `point` lies in front of the plane; negative behind it.
    pub open spec fn spec_signed_distance<K: Arithmetic>(self, point: Point) -> Scalar {
        spec_dot::<K>(point.spec_minus::<K>(self.point), self.normal)
    }

    /// The speed at which `ray` comes nearer to the plane: positive when it
    /// travels against the normal.
    pub open spec fn approach<K: Arithmetic>(self, ray: Ray) -> Scalar {
        negation(spec_dot::<K>(ray.direction, self.normal))
    }

    /// What `ray` meets on the plane.
    ///
    /// There is no hit when the ray runs along the plane or away from it, and
    /// none when it starts on the plane or behind it. Otherwise the hit lies
    /// at the distance of the origin divided by the speed of approach.
    pub open spec fn intersection<K: Arithmetic>(self, ray: Ray) -> Option<Intersection> {
        let v = self.approach::<K>(ray);
        let d = self.spec_signed_distance::<K>(ray.origin);
        if v.spec_le(of_bits(0)) || d.spec_le(of_bits(0)) {
            None
        } else {
            let t = quotient::<K>(d, v);
            Some(
                Intersection {
                    point: ray.at::<K>(t),
                    normal: self.normal,
                    distance: t,
                    inside: false,
                },
            )
        }
    }

    /// How far `point` lies in front of the plane.
    pub fn signed_distance<K: Arithmetic>(&self, point: Point) -> (d: Scalar)
        requires
            sum_defined::<K>(),
            difference_defined::<K>(),
            product_defined::<K>(),
        ensures
            d == self.spec_signed_distance::<K>(point),
    {
        let pp = point.minus::<K>(self.point);
        dot::<K>(pp, self.normal)
    }

    /// Works out what `ray` meets on the plane.
    pub fn intersect<K: Arithmetic>(&self, ray: &Ray) -> (hit: Option<Intersection>)
        requires
            sum_defined::<K>(),
            difference_defined::<K>(),
            product_defined::<K>(),
            quotient_defined::<K>(),
        ensures
            hit == self.intersection::<K>(*ray),
            self.spec_signed_distance::<K>(ray.origin).spec_le(of_bits(0)) ==> hit is None,
            hit matches Some(h) ==> !h.inside && h.normal == self.normal,
    {
        let v = negate(dot::<K>(ray.direction, self.normal));
        if v.le(Scalar::zero()) {
            return None;
        }
        let d = self.signed_distance::<K>(ray.origin);
        if d.le(Scalar::zero()) {
            return None;
        }
        let t = over::<K>(d, v);
        Some(
            Intersection {
                point: translate::<K>(ray.origin, ray.direction.scaled::<K>(t)),
                normal: self.normal,
                distance: t,
                inside: false,
            },
        )
    }
}

impl Sphere {
    /// The linear coefficient of the equation `t^2 + b t + c = 0` for the
    /// parameters at which `ray` is on the sphere.
    pub open spec fn linear<K: Arithmetic>(self, ray: Ray) -> Scalar {
        product::<K>(
            of_bits(TWO_BITS),
            spec_dot::<K>(ray.direction, ray.origin.spec_minus::<K>(self.center)),
        )
    }

    /// The constant coefficient of that equation.
    pub open spec fn constant<K: Arithmetic>(self, ray: Ray) -> Scalar {
        difference::<K>(
            ray.origin.spec_minus::<K>(self.center).spec_square_length::<K>(),
            product::<K>(self.radius, self.radius),
        )
    }

    /// The discriminant `b^2 - 4 c`.
    pub open spec fn discriminant<K: Arithmetic>(self, ray: Ray) -> Scalar {
        difference::<K>(
            product::<K>(self.linear::<K>(ray), self.linear::<K>(ray)),
            product::<K>(of_bits(FOUR_BITS), self.constant::<K>(ray)),
        )
    }

    /// The smaller root, `(-b - sqrt(delta)) / 2`.
    pub open spec fn near_root<K: Arithmetic>(self, ray: Ray) -> Scalar {
        quotient::<K>(
            difference::<K>(
                negation(self.linear::<K>(ray)),
                square_root::<K>(self.discriminant::<K>(ray)),
            ),
            of_bits(TWO_BITS),
        )
    }

    /// The larger root, `(-b + sqrt(delta)) / 2`.
    pub open spec fn far_root<K: Arithmetic>(self, ray: Ray) -> Scalar {
        quotient::<K>(
            sum::<K>(
                negation(self.linear::<K>(ray)),
                square_root::<K>(self.discriminant::<K>(ray)),
            ),
            of_bits(TWO_BITS),
        )
    }

    /// What `ray` meets on the sphere.
    ///
    /// With a negative discriminant the ray passes by. A positive smaller
    /// root is a hit from outside, with the normal pointing away from the
    /// centre. Failing that, a positive larger root is a hit from inside, with
    /// the normal pointing to the centre. Otherwise the sphere lies behind
    /// the ray.
    pub open spec fn intersection<K: Arithmetic>(self, ray: Ray) -> Option<Intersection> {
        let t1 = self.near_root::<K>(ray);
        let t2 = self.far_root::<K>(ray);
        if self.discriminant::<K>(ray).spec_lt(of_bits(0)) {
            None
        } else if t1.spec_gt(of_bits(0)) {
            let p = ray.at::<K>(t1);
            Some(
                Intersection {
                    point: p,
                    normal: p.spec_minus::<K>(self.center).spec_normalize::<K>(),
                    distance: t1,
                    inside: false,
                },
            )
        } else if t2.spec_gt(of_bits(0)) {
            let p = ray.at::<K>(t2);
            Some(
                Intersection {
                    point: p,
                    normal: self.center.spec_minus::<K>(p).spec_normalize::<K>(),
                    distance: t2,
                    inside: true,
                },
            )
        } else {
            None
        }
    }

    /// Works out what `ray` meets on the sphere.
    pub fn intersect<K: Arithmetic>(&self, ray: &Ray) -> (hit: Option<Intersection>)
        requires
            exact::<K>(),
        ensures
            hit == self.intersection::<K>(*ray),
            hit matches Some(h) ==> h.distance.spec_gt(of_bits(0)),
    {
        let two = Scalar::from_bits(TWO_BITS);
        let four = Scalar::from_bits(FOUR_BITS);
        let zero = Scalar::zero();
        let from_center = ray.origin.minus::<K>(self.center);
        let b = times::<K>(two, dot::<K>(ray.direction, from_center));
        let c = minus::<K>(from_center.square_length::<K>(), times::<K>(self.radius, self.radius));
        let delta = minus::<K>(times::<K>(b, b), times::<K>(four, c));
        if delta.lt(zero) {
            return None;
        }
        let t1 = over::<K>(minus::<K>(negate(b), sqrt::<K>(delta)), two);
        if t1.gt(zero) {
            let intersection = translate::<K>(ray.origin, ray.direction.scaled::<K>(t1));
            let normal = intersection.minus::<K>(self.center).normalize::<K>();
            return Some(Intersection { point: intersection, normal, distance: t1, inside: false });
        }
        let t2 = over::<K>(plus::<K>(negate(b), sqrt::<K>(delta)), two);
        if t2.gt(zero) {
            let intersection = translate::<K>(ray.origin, ray.direction.scaled::<K>(t2));
            let normal = self.center.minus::<K>(intersection).normalize::<K>();
            return Some(Intersection { point: intersection, normal, distance: t2, inside: true });
        }
        None
    }
}

} // verus!
