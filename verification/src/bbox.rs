//! Axis-aligned boxes and the tree that indexes a scene by them.

use vstd::prelude::*;
use vstd::multiset::Multiset;
use crate::arith::difference;
use crate::arith::difference_defined;
use crate::arith::exact;
use crate::arith::minus;
use crate::arith::over;
use crate::arith::plus;
use crate::arith::product_defined;
use crate::arith::quotient;
use crate::arith::quotient_defined;
use crate::arith::sum;
use crate::arith::sum_defined;
use crate::arith::Arithmetic;
use crate::math::of_bits;
use crate::math::translate;
use crate::math::Intersection;
use crate::math::Plane;
use crate::math::Point;
use crate::math::Ray;
use crate::math::Sphere;
use crate::math::TWO_BITS;
use crate::scalar::Scalar;
use crate::scalar::INFINITY_BITS;
use crate::scalar::SIGN_BIT;
use crate::scene::Object;

verus! {

/// An axis-aligned box, by its lowest and highest coordinate on each axis.
#[derive(Clone, Copy, Debug)]
pub struct BoundingBox {
    pub min_x: Scalar,
    pub max_x: Scalar,
    pub min_y: Scalar,
    pub max_y: Scalar,
    pub min_z: Scalar,
    pub max_z: Scalar,
}

/// What a scene is made of.
#[derive(Clone, Copy, Debug)]
pub enum Shape {
    Sphere(Sphere),
    Plane(Plane),
}

/// An inner vertex of the tree.
#[derive(Debug)]
pub struct Node {
    /// The box around everything below this vertex.
    pub bounding_box: BoundingBox,
    pub left: Option<Box<BoundingBoxTree>>,
    pub right: Option<Box<BoundingBoxTree>>,
}

/// A vertex that holds one object.
#[derive(Debug)]
pub struct Leaf {
    pub object: Object,
}

/// A binary tree of boxes over the objects of a scene.
///
/// A vertex without children is the empty tree. A vertex with a left child
/// only is a tree of one object, or of whatever its left child holds; the
/// next object goes to its right.
#[derive(Debug)]
pub enum BoundingBoxTree {
    Node(Node),
    Leaf(Leaf),
}

impl BoundingBox {
    /// The box whose six bounds are all positive zero.
    pub open spec fn zeroed() -> BoundingBox {
        BoundingBox {
            min_x: of_bits(0),
            max_x: of_bits(0),
            min_y: of_bits(0),
            max_y: of_bits(0),
            min_z: of_bits(0),
            max_z: of_bits(0),
        }
    }

    /// All of space.
    pub open spec fn everything() -> BoundingBox {
        BoundingBox {
            min_x: of_bits((SIGN_BIT + INFINITY_BITS) as u32),
            max_x: of_bits(INFINITY_BITS),
            min_y: of_bits((SIGN_BIT + INFINITY_BITS) as u32),
            max_y: of_bits(INFINITY_BITS),
            min_z: of_bits((SIGN_BIT + INFINITY_BITS) as u32),
            max_z: of_bits(INFINITY_BITS),
        }
    }

    /// None of the six bounds is a NaN.
    pub open spec fn ordered(self) -> bool {
        &&& !self.min_x.nan()
        &&& !self.max_x.nan()
        &&& !self.min_y.nan()
        &&& !self.max_y.nan()
        &&& !self.min_z.nan()
        &&& !self.max_z.nan()
    }

    /// The smallest box around both: on each axis the smaller of the lower
    /// bounds and the larger of the upper bounds.
    pub open spec fn union(self, other: BoundingBox) -> BoundingBox {
        BoundingBox {
            min_x: self.min_x.spec_min(other.min_x),
            min_y: self.min_y.spec_min(other.min_y),
            min_z: self.min_z.spec_min(other.min_z),
            max_x: self.max_x.spec_max(other.max_x),
            max_y: self.max_y.spec_max(other.max_y),
            max_z: self.max_z.spec_max(other.max_z),
        }
    }

    /// The size of the box: its largest extent along an axis.
    pub open spec fn spec_norm<K: Arithmetic>(self) -> Scalar {
        difference::<K>(self.max_x, self.min_x).spec_max(
            difference::<K>(self.max_y, self.min_y),
        ).spec_max(difference::<K>(self.max_z, self.min_z))
    }

    /// The midpoint of the box.
    pub open spec fn spec_center<K: Arithmetic>(self) -> Point {
        Point {
            x: quotient::<K>(sum::<K>(self.max_x, self.min_x), of_bits(TWO_BITS)),
            y: quotient::<K>(sum::<K>(self.max_y, self.min_y), of_bits(TWO_BITS)),
            z: quotient::<K>(sum::<K>(self.max_z, self.min_z), of_bits(TWO_BITS)),
        }
    }

    /// The parameter at which `ray` crosses the plane `x = c`.
    pub open spec fn reach_x<K: Arithmetic>(ray: Ray, c: Scalar) -> Scalar {
        quotient::<K>(difference::<K>(c, ray.origin.x), ray.direction.x)
    }

    /// The parameter at which `ray` crosses the plane `y = c`.
    pub open spec fn reach_y<K: Arithmetic>(ray: Ray, c: Scalar) -> Scalar {
        quotient::<K>(difference::<K>(c, ray.origin.y), ray.direction.y)
    }

    /// The parameter at which `ray` crosses the plane `z = c`.
    pub open spec fn reach_z<K: Arithmetic>(ray: Ray, c: Scalar) -> Scalar {
        quotient::<K>(difference::<K>(c, ray.origin.z), ray.direction.z)
    }

    /// `ray` crosses the plane `x = c` ahead of its origin, at a point that
    /// lies strictly between the bounds of the box on the other two axes.
    pub open spec fn enters_at_x<K: Arithmetic>(self, ray: Ray, c: Scalar) -> bool {
        let t = Self::reach_x::<K>(ray, c);
        let p = ray.at::<K>(t);
        &&& t.spec_gt(of_bits(0))
        &&& p.y.spec_gt(self.min_y)
        &&& p.y.spec_lt(self.max_y)
        &&& p.z.spec_gt(self.min_z)
        &&& p.z.spec_lt(self.max_z)
    }

    /// As `enters_at_x`, for the plane `y = c`.
    pub open spec fn enters_at_y<K: Arithmetic>(self, ray: Ray, c: Scalar) -> bool {
        let t = Self::reach_y::<K>(ray, c);
        let p = ray.at::<K>(t);
        &&& t.spec_gt(of_bits(0))
        &&& p.x.spec_gt(self.min_x)
        &&& p.x.spec_lt(self.max_x)
        &&& p.z.spec_gt(self.min_z)
        &&& p.z.spec_lt(self.max_z)
    }

    /// As `enters_at_x`, for the plane `z = c`.
    pub open spec fn enters_at_z<K: Arithmetic>(self, ray: Ray, c: Scalar) -> bool {
        let t = Self::reach_z::<K>(ray, c);
        let p = ray.at::<K>(t);
        &&& t.spec_gt(of_bits(0))
        &&& p.x.spec_gt(self.min_x)
        &&& p.x.spec_lt(self.max_x)
        &&& p.y.spec_gt(self.min_y)
        &&& p.y.spec_lt(self.max_y)
    }

    /// `ray` enters the box through one of its six faces.
    pub open spec fn intersects<K: Arithmetic>(self, ray: Ray) -> bool {
        ||| self.enters_at_x::<K>(ray, self.min_x)
        ||| self.enters_at_x::<K>(ray, self.max_x)
        ||| self.enters_at_y::<K>(ray, self.min_y)
        ||| self.enters_at_y::<K>(ray, self.max_y)
        ||| self.enters_at_z::<K>(ray, self.min_z)
        ||| self.enters_at_z::<K>(ray, self.max_z)
    }

    /// The size of the box: its largest extent along an axis.
    pub fn norm<K: Arithmetic>(&self) -> (n: Scalar)
        requires
            difference_defined::<K>(),
        ensures
            n == self.spec_norm::<K>(),
    {
        minus::<K>(self.max_x, self.min_x).max(minus::<K>(self.max_y, self.min_y)).max(
            minus::<K>(self.max_z, self.min_z),
        )
    }

    /// The midpoint of the box.
    pub fn center<K: Arithmetic>(&self) -> (p: Point)
        requires
            sum_defined::<K>(),
            quotient_defined::<K>(),
        ensures
            p == self.spec_center::<K>(),
    {
        let two = Scalar::from_bits(TWO_BITS);
        Point {
            x: over::<K>(plus::<K>(self.max_x, self.min_x), two),
            y: over::<K>(plus::<K>(self.max_y, self.min_y), two),
            z: over::<K>(plus::<K>(self.max_z, self.min_z), two),
        }
    }

    fn check_face_x<K: Arithmetic>(&self, ray: &Ray, c: Scalar) -> (r: bool)
        requires
            sum_defined::<K>(),
            difference_defined::<K>(),
            product_defined::<K>(),
            quotient_defined::<K>(),
        ensures
            r == self.enters_at_x::<K>(*ray, c),
    {
        let t = over::<K>(minus::<K>(c, ray.origin.x), ray.direction.x);
        let p = translate::<K>(ray.origin, ray.direction.scaled::<K>(t));
        t.gt(Scalar::zero()) && p.y.gt(self.min_y) && p.y.lt(self.max_y) && p.z.gt(self.min_z)
            && p.z.lt(self.max_z)
    }

    fn check_face_y<K: Arithmetic>(&self, ray: &Ray, c: Scalar) -> (r: bool)
        requires
            sum_defined::<K>(),
            difference_defined::<K>(),
            product_defined::<K>(),
            quotient_defined::<K>(),
        ensures
            r == self.enters_at_y::<K>(*ray, c),
    {
        let t = over::<K>(minus::<K>(c, ray.origin.y), ray.direction.y);
        let p = translate::<K>(ray.origin, ray.direction.scaled::<K>(t));
        t.gt(Scalar::zero()) && p.x.gt(self.min_x) && p.x.lt(self.max_x) && p.z.gt(self.min_z)
            && p.z.lt(self.max_z)
    }

    fn check_face_z<K: Arithmetic>(&self, ray: &Ray, c: Scalar) -> (r: bool)
        requires
            sum_defined::<K>(),
            difference_defined::<K>(),
            product_defined::<K>(),
            quotient_defined::<K>(),
        ensures
            r == self.enters_at_z::<K>(*ray, c),
    {
        let t = over::<K>(minus::<K>(c, ray.origin.z), ray.direction.z);
        let p = translate::<K>(ray.origin, ray.direction.scaled::<K>(t));
        t.gt(Scalar::zero()) && p.x.gt(self.min_x) && p.x.lt(self.max_x) && p.y.gt(self.min_y)
            && p.y.lt(self.max_y)
    }

    /// Whether `ray` enters the box through one of its faces.
    ///
    /// A ray that runs along an axis divides by zero on the other two; the
    /// parameters that come of it are infinite or NaN, and the comparisons
    /// then decide as they do for any other value: no comparison with a NaN
    /// holds.
    pub fn check_intersects<K: Arithmetic>(&self, ray: &Ray) -> (r: bool)
        requires
            sum_defined::<K>(),
            difference_defined::<K>(),
            product_defined::<K>(),
            quotient_defined::<K>(),
        ensures
            r == self.intersects::<K>(*ray),
    {
        if self.check_face_x::<K>(ray, self.min_x) {
            return true;
        }
        if self.check_face_x::<K>(ray, self.max_x) {
            return true;
        }
        if self.check_face_y::<K>(ray, self.min_y) {
            return true;
        }
        if self.check_face_y::<K>(ray, self.max_y) {
            return true;
        }
        if self.check_face_z::<K>(ray, self.min_z) {
            return true;
        }
        if self.check_face_z::<K>(ray, self.max_z) {
            return true;
        }
        false
    }
}

impl Default for BoundingBox {
    fn default() -> (b: BoundingBox)
        ensures
            b == BoundingBox::zeroed(),
    {
        BoundingBox {
            min_x: Scalar::zero(),
            max_x: Scalar::zero(),
            min_y: Scalar::zero(),
            max_y: Scalar::zero(),
            min_z: Scalar::zero(),
            max_z: Scalar::zero(),
        }
    }
}

impl core::ops::Add for BoundingBox {
    type Output = BoundingBox;

    /// The smallest box around both operands.
    fn add(self, other: BoundingBox) -> (b: BoundingBox)
        ensures
            b == self.union(other),
    {
        BoundingBox {
            min_x: self.min_x.min(other.min_x),
            min_y: self.min_y.min(other.min_y),
            min_z: self.min_z.min(other.min_z),
            max_x: self.max_x.max(other.max_x),
            max_y: self.max_y.max(other.max_y),
            max_z: self.max_z.max(other.max_z),
        }
    }
}

impl vstd::std_specs::ops::AddSpecImpl for BoundingBox {
    open spec fn obeys_add_spec() -> bool {
        true
    }

    open spec fn add_req(self, other: BoundingBox) -> bool {
        true
    }

    open spec fn add_spec(self, other: BoundingBox) -> BoundingBox {
        self.union(other)
    }
}

impl Sphere {
    /// The cube of side `2 * radius` around the centre.
    pub open spec fn spec_bounding_box<K: Arithmetic>(self) -> BoundingBox {
        BoundingBox {
            min_x: difference::<K>(self.center.x, self.radius),
            min_y: difference::<K>(self.center.y, self.radius),
            min_z: difference::<K>(self.center.z, self.radius),
            max_x: sum::<K>(self.center.x, self.radius),
            max_y: sum::<K>(self.center.y, self.radius),
            max_z: sum::<K>(self.center.z, self.radius),
        }
    }

    /// The box around the sphere.
    pub fn get_bounding_box<K: Arithmetic>(&self) -> (b: BoundingBox)
        requires
            sum_defined::<K>(),
            difference_defined::<K>(),
        ensures
            b == self.spec_bounding_box::<K>(),
    {
        BoundingBox {
            min_x: minus::<K>(self.center.x, self.radius),
            min_y: minus::<K>(self.center.y, self.radius),
            min_z: minus::<K>(self.center.z, self.radius),
            max_x: plus::<K>(self.center.x, self.radius),
            max_y: plus::<K>(self.center.y, self.radius),
            max_z: plus::<K>(self.center.z, self.radius),
        }
    }
}

impl Plane {
    /// The box around the plane. A plane has no end, so neither has its box.
    pub fn get_bounding_box(&self) -> (b: BoundingBox)
        ensures
            b == BoundingBox::everything(),
    {
        BoundingBox {
            min_x: Scalar::neg_infinity(),
            min_y: Scalar::neg_infinity(),
            min_z: Scalar::neg_infinity(),
            max_x: Scalar::infinity(),
            max_y: Scalar::infinity(),
            max_z: Scalar::infinity(),
        }
    }
}

impl Shape {
    /// The box around the shape.
    pub open spec fn spec_bounding_box<K: Arithmetic>(self) -> BoundingBox {
        match self {
            Shape::Sphere(sphere) => sphere.spec_bounding_box::<K>(),
            Shape::Plane(_) => BoundingBox::everything(),
        }
    }

    /// What `ray` meets on the shape.
    pub open spec fn intersection<K: Arithmetic>(self, ray: Ray) -> Option<Intersection> {
        match self {
            Shape::Sphere(sphere) => sphere.intersection::<K>(ray),
            Shape::Plane(plane) => plane.intersection::<K>(ray),
        }
    }

    /// The box around the shape.
    pub fn get_bounding_box<K: Arithmetic>(&self) -> (b: BoundingBox)
        requires
            sum_defined::<K>(),
            difference_defined::<K>(),
        ensures
            b == self.spec_bounding_box::<K>(),
    {
        match self {
            Shape::Sphere(sphere) => sphere.get_bounding_box::<K>(),
            Shape::Plane(plane) => plane.get_bounding_box(),
        }
    }

    /// Works out what `ray` meets on the shape.
    pub fn intersect<K: Arithmetic>(&self, ray: &Ray) -> (hit: Option<Intersection>)
        requires
            exact::<K>(),
        ensures
            hit == self.intersection::<K>(*ray),
    {
        match self {
            Shape::Sphere(sphere) => sphere.intersect::<K>(ray),
            Shape::Plane(plane) => plane.intersect::<K>(ray),
        }
    }
}

impl BoundingBoxTree {
    /// The tree has no objects: it is a vertex without children.
    pub open spec fn is_empty(self) -> bool {
        self matches BoundingBoxTree::Node(node) && node.left is None && node.right is None
    }

    /// The tree of one vertex and no objects, with the given box.
    pub open spec fn empty(bounding_box: BoundingBox) -> BoundingBoxTree {
        BoundingBoxTree::Node(Node { bounding_box, left: None, right: None })
    }

    /// The tree that holds `object` and nothing else.
    pub open spec fn leaf(object: Object) -> BoundingBoxTree {
        BoundingBoxTree::Leaf(Leaf { object })
    }

    /// The vertex with the given box above the given children.
    pub open spec fn node(
        bounding_box: BoundingBox,
        left: BoundingBoxTree,
        right: BoundingBoxTree,
    ) -> BoundingBoxTree {
        BoundingBoxTree::Node(
            Node { bounding_box, left: Some(Box::new(left)), right: Some(Box::new(right)) },
        )
    }

    /// Number of objects in the tree.
    pub open spec fn size(self) -> nat
        decreases self,
    {
        match self {
            BoundingBoxTree::Leaf(_) => 1,
            BoundingBoxTree::Node(node) => {
                (match node.left {
                    Some(l) => l.size(),
                    None => 0,
                }) + (match node.right {
                    Some(r) => r.size(),
                    None => 0,
                })
            },
        }
    }

    /// The objects in the tree, each as often as it was put in.
    pub open spec fn objects(self) -> Multiset<Object>
        decreases self,
    {
        match self {
            BoundingBoxTree::Leaf(leaf) => Multiset::singleton(leaf.object),
            BoundingBoxTree::Node(node) => {
                (match node.left {
                    Some(l) => l.objects(),
                    None => Multiset::empty(),
                }).add(
                    match node.right {
                        Some(r) => r.objects(),
                        None => Multiset::empty(),
                    },
                )
            },
        }
    }

    /// Number of vertices on the longest way from this vertex down to a
    /// leaf, both ends counted; a vertex without children counts for one.
    pub open spec fn height(self) -> nat
        decreases self,
    {
        match self {
            BoundingBoxTree::Leaf(_) => 1,
            BoundingBoxTree::Node(node) => {
                let l = match node.left {
                    Some(l) => l.height(),
                    None => 0,
                };
                let r = match node.right {
                    Some(r) => r.height(),
                    None => 0,
                };
                1 + if l >= r {
                    l
                } else {
                    r
                }
            },
        }
    }

    /// No vertex has a right child without a left one.
    pub open spec fn well_formed(self) -> bool
        decreases self,
    {
        match self {
            BoundingBoxTree::Leaf(_) => true,
            BoundingBoxTree::Node(node) => {
                &&& node.left is None ==> node.right is None
                &&& node.left matches Some(l) ==> l.well_formed()
                &&& node.right matches Some(r) ==> r.well_formed()
            },
        }
    }

    /// Every inner vertex has a left child: the tree is well formed and no
    /// vertex in it is empty.
    pub open spec fn populated(self) -> bool
        decreases self,
    {
        match self {
            BoundingBoxTree::Leaf(_) => true,
            BoundingBoxTree::Node(node) => {
                &&& node.left matches Some(l) && l.populated()
                &&& node.right matches Some(r) ==> r.populated()
            },
        }
    }

    /// The box of the root: the one a vertex carries, or the one around the
    /// object of a leaf.
    pub open spec fn spec_bounding_box<K: Arithmetic>(self) -> BoundingBox {
        match self {
            BoundingBoxTree::Node(node) => node.bounding_box,
            BoundingBoxTree::Leaf(leaf) => leaf.object.shape.spec_bounding_box::<K>(),
        }
    }

    /// Every vertex with children carries the smallest box around the boxes
    /// of its children.
    pub open spec fn tight<K: Arithmetic>(self) -> bool
        decreases self,
    {
        match self {
            BoundingBoxTree::Leaf(_) => true,
            BoundingBoxTree::Node(node) => match (node.left, node.right) {
                (Some(l), Some(r)) => {
                    &&& l.tight::<K>()
                    &&& r.tight::<K>()
                    &&& node.bounding_box == l.spec_bounding_box::<K>().union(
                        r.spec_bounding_box::<K>(),
                    )
                },
                (Some(l), None) => {
                    &&& l.tight::<K>()
                    &&& node.bounding_box == l.spec_bounding_box::<K>()
                },
                (None, Some(r)) => r.tight::<K>(),
                (None, None) => true,
            },
        }
    }

    /// Two trees under a new root, whose box is the smallest around both.
    pub open spec fn merged<K: Arithmetic>(self, other: BoundingBoxTree) -> BoundingBoxTree {
        BoundingBoxTree::node(
            self.spec_bounding_box::<K>().union(other.spec_bounding_box::<K>()),
            self,
            other,
        )
    }

    /// The tree with one more object.
    ///
    /// - The empty tree becomes a vertex with the object as its left leaf.
    /// - A vertex with a left child only takes the object as its right leaf.
    /// - A vertex with two children grows its box and compares three sizes:
    ///   `lo`, of the box around the object and the left child; `ro`, of the
    ///   box around the object and the right child; `lr`, of the box around
    ///   the two children. If `lo` is less than both others, the object goes
    ///   into the left child. Failing that, if `lr` is less than the larger
    ///   of `lo` and `ro`, the two children move under one new vertex on the
    ///   left and the object becomes the right leaf. Otherwise the object
    ///   goes into the right child.
    /// - A leaf becomes a vertex over the old object, left, and the new one,
    ///   right.
    ///
    /// A vertex with a right child only is not a tree; it comes back as it
    /// is.
    pub open spec fn inserted<K: Arithmetic>(self, object: Object) -> BoundingBoxTree
        decreases self,
    {
        let object_box = object.shape.spec_bounding_box::<K>();
        match self {
            BoundingBoxTree::Leaf(leaf) => BoundingBoxTree::node(
                object_box.union(leaf.object.shape.spec_bounding_box::<K>()),
                self,
                BoundingBoxTree::leaf(object),
            ),
            BoundingBoxTree::Node(node) => match (node.left, node.right) {
                (None, None) => BoundingBoxTree::Node(
                    Node {
                        bounding_box: object_box,
                        left: Some(Box::new(BoundingBoxTree::leaf(object))),
                        right: None,
                    },
                ),
                (Some(l), None) => BoundingBoxTree::Node(
                    Node {
                        bounding_box: node.bounding_box.union(object_box),
                        left: Some(l),
                        right: Some(Box::new(BoundingBoxTree::leaf(object))),
                    },
                ),
                (Some(l), Some(r)) => {
                    let bounding_box = node.bounding_box.union(object_box);
                    let lo = object_box.union(l.spec_bounding_box::<K>()).spec_norm::<K>();
                    let ro = object_box.union(r.spec_bounding_box::<K>()).spec_norm::<K>();
                    let lr = l.spec_bounding_box::<K>().union(
                        r.spec_bounding_box::<K>(),
                    ).spec_norm::<K>();
                    if lo.spec_lt(ro.spec_min(lr)) {
                        BoundingBoxTree::node(bounding_box, l.inserted::<K>(object), *r)
                    } else if lr.spec_lt(lo.spec_max(ro)) {
                        BoundingBoxTree::node(
                            bounding_box,
                            l.merged::<K>(*r),
                            BoundingBoxTree::leaf(object),
                        )
                    } else {
                        BoundingBoxTree::node(bounding_box, *l, r.inserted::<K>(object))
                    }
                },
                (None, Some(_)) => self,
            },
        }
    }

    /// Whether no vertex has a right child without a left one.
    pub fn is_well_formed(&self) -> (r: bool)
        ensures
            r == self.well_formed(),
        decreases *self,
    {
        match self {
            BoundingBoxTree::Leaf(_) => true,
            BoundingBoxTree::Node(node) => {
                let left_fits = match &node.left {
                    Some(l) => l.is_well_formed(),
                    None => node.right.is_none(),
                };
                let right_fits = match &node.right {
                    Some(r) => r.is_well_formed(),
                    None => true,
                };
                left_fits && right_fits
            },
        }
    }

    /// Whether every inner vertex has a left child.
    pub fn is_populated(&self) -> (r: bool)
        ensures
            r == self.populated(),
        decreases *self,
    {
        match self {
            BoundingBoxTree::Leaf(_) => true,
            BoundingBoxTree::Node(node) => {
                let left_fits = match &node.left {
                    Some(l) => l.is_populated(),
                    None => false,
                };
                let right_fits = match &node.right {
                    Some(r) => r.is_populated(),
                    None => true,
                };
                left_fits && right_fits
            },
        }
    }

    /// Puts one more object into the tree.
    pub fn add<K: Arithmetic>(self, object: Object) -> (tree: BoundingBoxTree)
        requires
            sum_defined::<K>(),
            difference_defined::<K>(),
            self.well_formed(),
        ensures
            tree == self.inserted::<K>(object),
            self.is_empty() ==> tree == BoundingBoxTree::Node(
                Node {
                    bounding_box: object.shape.spec_bounding_box::<K>(),
                    left: Some(Box::new(BoundingBoxTree::leaf(object))),
                    right: None,
                },
            ),
        decreases self,
    {
        match self {
            BoundingBoxTree::Node(node) => {
                let Node { bounding_box, left, right } = node;
                match left {
                    None => BoundingBoxTree::Node(
                        Node {
                            bounding_box: object.shape.get_bounding_box::<K>(),
                            left: Some(Box::new(BoundingBoxTree::Leaf(Leaf { object }))),
                            right: None,
                        },
                    ),
                    Some(node_l) => match right {
                        None => BoundingBoxTree::Node(
                            Node {
                                bounding_box: bounding_box + object.shape.get_bounding_box::<K>(),
                                left: Some(node_l),
                                right: Some(Box::new(BoundingBoxTree::Leaf(Leaf { object }))),
                            },
                        ),
                        Some(node_r) => {
                            let bounding_box = bounding_box + object.shape.get_bounding_box::<K>();
                            let lo_bb_size = (object.shape.get_bounding_box::<K>()
                                + node_l.get_bounding_box::<K>()).norm::<K>();
                            let ro_bb_size = (object.shape.get_bounding_box::<K>()
                                + node_r.get_bounding_box::<K>()).norm::<K>();
                            let lr_bb_size = (node_l.get_bounding_box::<K>()
                                + node_r.get_bounding_box::<K>()).norm::<K>();
                            if lo_bb_size.lt(ro_bb_size.min(lr_bb_size)) {
                                BoundingBoxTree::Node(
                                    Node {
                                        bounding_box,
                                        left: Some(Box::new((*node_l).add::<K>(object))),
                                        right: Some(node_r),
                                    },
                                )
                            } else if lr_bb_size.lt(lo_bb_size.max(ro_bb_size)) {
                                BoundingBoxTree::Node(
                                    Node {
                                        bounding_box,
                                        left: Some(Box::new((*node_l).merge::<K>(*node_r))),
                                        right: Some(
                                            Box::new(BoundingBoxTree::Leaf(Leaf { object })),
                                        ),
                                    },
                                )
                            } else {
                                BoundingBoxTree::Node(
                                    Node {
                                        bounding_box,
                                        left: Some(node_l),
                                        right: Some(Box::new((*node_r).add::<K>(object))),
                                    },
                                )
                            }
                        },
                    },
                }
            },
            BoundingBoxTree::Leaf(leaf) => {
                let existing_object = leaf.object;
                BoundingBoxTree::Node(
                    Node {
                        bounding_box: object.shape.get_bounding_box::<K>()
                            + existing_object.shape.get_bounding_box::<K>(),
                        left: Some(
                            Box::new(BoundingBoxTree::Leaf(Leaf { object: existing_object })),
                        ),
                        right: Some(Box::new(BoundingBoxTree::Leaf(Leaf { object }))),
                    },
                )
            },
        }
    }

    /// Puts two trees under a new root.
    pub fn merge<K: Arithmetic>(self, other: BoundingBoxTree) -> (tree: BoundingBoxTree)
        requires
            sum_defined::<K>(),
            difference_defined::<K>(),
        ensures
            tree == self.merged::<K>(other),
    {
        BoundingBoxTree::Node(
            Node {
                bounding_box: self.get_bounding_box::<K>() + other.get_bounding_box::<K>(),
                left: Some(Box::new(self)),
                right: Some(Box::new(other)),
            },
        )
    }

    /// The tree without objects: one vertex, no children, a box of zeros.
    pub fn create_empty() -> (tree: BoundingBoxTree)
        ensures
            tree == BoundingBoxTree::empty(BoundingBox::zeroed()),
    {
        BoundingBoxTree::Node(
            Node { bounding_box: BoundingBox::default(), left: None, right: None },
        )
    }

    /// The box of the root.
    pub fn get_bounding_box<K: Arithmetic>(&self) -> (b: BoundingBox)
        requires
            sum_defined::<K>(),
            difference_defined::<K>(),
        ensures
            b == self.spec_bounding_box::<K>(),
    {
        match self {
            BoundingBoxTree::Node(node) => node.bounding_box,
            BoundingBoxTree::Leaf(leaf) => leaf.object.shape.get_bounding_box::<K>(),
        }
    }
}

impl Default for BoundingBoxTree {
    fn default() -> (tree: BoundingBoxTree)
        ensures
            tree == BoundingBoxTree::empty(BoundingBox::zeroed()),
    {
        BoundingBoxTree::create_empty()
    }
}

} // verus!
