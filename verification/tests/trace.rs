use pathtracer::arith::Arithmetic;
use pathtracer::bbox::{BoundingBox, BoundingBoxTree, Leaf, Node, Shape};
use pathtracer::material::Material;
use pathtracer::math::{Plane, Point, Ray, Sphere, Vector};
use pathtracer::scalar::Scalar;
use pathtracer::scene::Object;
use pathtracer::trace::shoot_ray;

struct Ieee;

fn s(x: f32) -> Scalar {
    Scalar::from_bits(x.to_bits())
}

fn f(x: Scalar) -> f32 {
    f32::from_bits(x.to_bits())
}

impl Arithmetic for Ieee {
    fn sum(a: Scalar, b: Scalar) -> Scalar {
        s(f(a) + f(b))
    }
    fn difference(a: Scalar, b: Scalar) -> Scalar {
        s(f(a) - f(b))
    }
    fn product(a: Scalar, b: Scalar) -> Scalar {
        s(f(a) * f(b))
    }
    fn quotient(a: Scalar, b: Scalar) -> Scalar {
        s(f(a) / f(b))
    }
    fn square_root(a: Scalar) -> Scalar {
        s(f(a).sqrt())
    }
    fn tangent(a: Scalar) -> Scalar {
        s(f(a).tan())
    }
    fn power(a: Scalar, n: i32) -> Scalar {
        s(f(a).powi(n))
    }
    fn from_count(n: usize) -> Scalar {
        s(n as f32)
    }
}

fn vector(x: f32, y: f32, z: f32) -> Vector {
    Vector { x: s(x), y: s(y), z: s(z) }
}

fn point(x: f32, y: f32, z: f32) -> Point {
    Point { x: s(x), y: s(y), z: s(z) }
}

fn ball(x: f32, y: f32, z: f32, radius: f32, material: Material) -> Object {
    Object { shape: Shape::Sphere(Sphere { center: point(x, y, z), radius: s(radius) }), material }
}

fn grow(objects: &[Object]) -> BoundingBoxTree {
    let mut tree = BoundingBoxTree::create_empty();
    for o in objects {
        tree = tree.add::<Ieee>(*o);
    }
    tree
}

fn along_x() -> Ray {
    Ray { origin: point(-10.0, 0.1, 0.2), direction: vector(1.0, 0.0, 0.0) }
}

#[test]
fn empty_tree_gives_no_hit() {
    let tree = BoundingBoxTree::create_empty();
    assert!(shoot_ray::<Ieee>(&tree, &along_x()).is_none());
}

#[test]
fn single_leaf_is_searched_without_a_box() {
    let tree = BoundingBoxTree::Leaf(Leaf { object: ball(0.0, 0.0, 0.0, 1.0, Material::create_glass()) });
    let (object, hit) = shoot_ray::<Ieee>(&tree, &along_x()).unwrap();
    assert_eq!(f(object.material.transparency), 1.0);
    assert!(f(hit.distance) > 8.9 && f(hit.distance) < 9.1);
    assert!(!hit.inside);
}

#[test]
fn nearest_of_several_spheres_is_found_in_any_order() {
    let near = ball(0.0, 0.0, 0.0, 1.0, Material::create_colored_1());
    let middle = ball(4.0, 0.0, 0.0, 1.0, Material::create_colored_2());
    let far = ball(8.0, 0.0, 0.0, 1.0, Material::create_colored_3());
    let aside = ball(0.0, 9.0, 0.0, 1.0, Material::create_glass());
    let all = [near, middle, far, aside];
    let orders: [[usize; 4]; 6] =
        [[0, 1, 2, 3], [3, 2, 1, 0], [1, 0, 3, 2], [2, 3, 0, 1], [1, 2, 3, 0], [3, 0, 2, 1]];
    for order in orders {
        let objects: Vec<Object> = order.iter().map(|i| all[*i]).collect();
        let tree = grow(&objects);
        let (object, hit) = shoot_ray::<Ieee>(&tree, &along_x()).unwrap();
        assert_eq!(f(object.material.diffuse.red), 0.2);
        let expected = Sphere { center: point(0.0, 0.0, 0.0), radius: s(1.0) }
            .intersect::<Ieee>(&along_x())
            .unwrap();
        assert_eq!(f(hit.distance), f(expected.distance));
        assert_eq!(f(hit.point.x), f(expected.point.x));
        assert_eq!(f(hit.normal.x), f(expected.normal.x));
    }
}

#[test]
fn ray_that_passes_everything_gives_no_hit() {
    let tree = grow(&[
        ball(0.0, 0.0, 0.0, 1.0, Material::create_colored_1()),
        ball(4.0, 0.0, 0.0, 1.0, Material::create_colored_2()),
        ball(8.0, 0.0, 0.0, 1.0, Material::create_colored_3()),
    ]);
    let up = Ray { origin: point(-10.0, 0.1, 0.2), direction: vector(0.0, 1.0, 0.0) };
    assert!(shoot_ray::<Ieee>(&tree, &up).is_none());
    let away = Ray { origin: point(-10.0, 0.1, 0.2), direction: vector(-1.0, 0.0, 0.0) };
    assert!(shoot_ray::<Ieee>(&tree, &away).is_none());
}

#[test]
fn a_box_that_is_missed_hides_what_is_below_it() {
    // The box of the vertex lies far from the sphere it holds: the search
    // trusts the box and never looks at the leaf.
    let object = ball(0.0, 0.0, 0.0, 1.0, Material::create_colored_1());
    let elsewhere = BoundingBox {
        min_x: s(100.0),
        max_x: s(101.0),
        min_y: s(100.0),
        max_y: s(101.0),
        min_z: s(100.0),
        max_z: s(101.0),
    };
    let tree = BoundingBoxTree::Node(Node {
        bounding_box: elsewhere,
        left: Some(Box::new(BoundingBoxTree::Leaf(Leaf { object }))),
        right: None,
    });
    assert!(shoot_ray::<Ieee>(&tree, &along_x()).is_none());
    let honest = grow(&[object]);
    assert!(shoot_ray::<Ieee>(&honest, &along_x()).is_some());
}

#[test]
fn of_two_hits_at_the_same_distance_the_first_one_met_stays() {
    let first = ball(0.0, 0.0, 0.0, 1.0, Material::create_colored_1());
    let second = ball(0.0, 0.0, 0.0, 1.0, Material::create_colored_2());
    let tree = grow(&[first, second]);
    // the right child is looked at before the left one
    let (object, _) = shoot_ray::<Ieee>(&tree, &along_x()).unwrap();
    assert_eq!(f(object.material.diffuse.red), 1.0);
}

#[test]
fn plane_is_hit_as_a_leaf_and_hidden_behind_its_endless_box() {
    let floor = Object {
        shape: Shape::Plane(Plane { point: point(0.0, 0.0, 0.0), normal: vector(0.0, 0.0, 1.0) }),
        material: Material::create_colored_3(),
    };
    let down = Ray { origin: point(3.0, 0.25, 2.0), direction: vector(0.0, 0.0, -1.0) };
    let alone = BoundingBoxTree::Leaf(Leaf { object: floor });
    let (object, hit) = shoot_ray::<Ieee>(&alone, &down).unwrap();
    assert_eq!(f(object.material.diffuse.red), 0.9);
    assert_eq!(f(hit.distance), 2.0);
    // Under a vertex the plane sits behind a box without end. A ray crosses
    // the faces of such a box nowhere that compares as inside it, so the
    // search passes the vertex over.
    let tree = grow(&[floor]);
    assert!(!tree.get_bounding_box::<Ieee>().check_intersects::<Ieee>(&down));
    assert!(shoot_ray::<Ieee>(&tree, &down).is_none());
}

#[test]
fn check_intersects_sees_a_box_ahead_and_not_one_behind() {
    let unit = BoundingBox {
        min_x: s(-1.0),
        max_x: s(1.0),
        min_y: s(-1.0),
        max_y: s(1.0),
        min_z: s(-1.0),
        max_z: s(1.0),
    };
    assert!(unit.check_intersects::<Ieee>(&along_x()));
    let away = Ray { origin: point(-10.0, 0.1, 0.2), direction: vector(-1.0, 0.0, 0.0) };
    assert!(!unit.check_intersects::<Ieee>(&away));
    let past = Ray { origin: point(-10.0, 5.0, 0.2), direction: vector(1.0, 0.0, 0.0) };
    assert!(!unit.check_intersects::<Ieee>(&past));
    let slanted = Ray { origin: point(0.0, -5.0, 0.0), direction: vector(0.0, 0.6, 0.8) };
    assert!(!unit.check_intersects::<Ieee>(&slanted));
    let from_inside = Ray { origin: point(0.0, 0.1, 0.2), direction: vector(0.0, 0.0, 1.0) };
    assert!(unit.check_intersects::<Ieee>(&from_inside));
}

#[test]
fn box_norm_is_the_largest_extent() {
    let b = BoundingBox {
        min_x: s(-1.0),
        max_x: s(1.0),
        min_y: s(0.0),
        max_y: s(5.0),
        min_z: s(2.0),
        max_z: s(3.0),
    };
    assert_eq!(f(b.norm::<Ieee>()), 5.0);
    let sum = b + BoundingBox::default();
    assert_eq!((f(sum.min_x), f(sum.max_x)), (-1.0, 1.0));
    assert_eq!((f(sum.min_y), f(sum.max_y)), (0.0, 5.0));
    assert_eq!((f(sum.min_z), f(sum.max_z)), (0.0, 3.0));
}

#[test]
fn shape_boxes() {
    let sphere = Shape::Sphere(Sphere { center: point(1.0, 2.0, 3.0), radius: s(0.5) });
    let b = sphere.get_bounding_box::<Ieee>();
    assert_eq!((f(b.min_x), f(b.max_x)), (0.5, 1.5));
    assert_eq!((f(b.min_y), f(b.max_y)), (1.5, 2.5));
    assert_eq!((f(b.min_z), f(b.max_z)), (2.5, 3.5));
    let plane = Shape::Plane(Plane { point: point(0.0, 0.0, 0.0), normal: vector(0.0, 0.0, 1.0) });
    let e = plane.get_bounding_box::<Ieee>();
    assert_eq!((f(e.min_x), f(e.max_x)), (f32::NEG_INFINITY, f32::INFINITY));
    assert_eq!((f(e.min_y), f(e.max_y)), (f32::NEG_INFINITY, f32::INFINITY));
    assert_eq!((f(e.min_z), f(e.max_z)), (f32::NEG_INFINITY, f32::INFINITY));
}

#[test]
fn root_box_is_the_same_for_every_order_of_adding() {
    let all = [
        ball(0.0, 0.0, 0.0, 1.0, Material::create_colored_1()),
        ball(3.5, -2.0, 7.0, 0.3, Material::create_colored_2()),
        ball(-8.0, 1.0, 2.0, 2.5, Material::create_colored_3()),
        ball(1.0, 9.0, -4.0, 1.5, Material::create_glass()),
    ];
    let mut expected: Option<BoundingBox> = None;
    let mut order = [0usize, 1, 2, 3];
    // all 24 orders, by Heap's method
    let mut c = [0usize; 4];
    let mut seen = 0;
    let mut i = 0;
    loop {
        let objects: Vec<Object> = order.iter().map(|k| all[*k]).collect();
        let tree = grow(&objects);
        let b = tree.get_bounding_box::<Ieee>();
        let bits = [b.min_x, b.max_x, b.min_y, b.max_y, b.min_z, b.max_z].map(|v| v.to_bits());
        match expected {
            None => {
                assert_eq!((f(b.min_x), f(b.max_x)), (-10.5, 3.8));
                assert_eq!((f(b.min_y), f(b.max_y)), (-2.3, 10.5));
                assert_eq!((f(b.min_z), f(b.max_z)), (-5.5, 7.3));
                expected = Some(b);
            }
            Some(e) => {
                let want = [e.min_x, e.max_x, e.min_y, e.max_y, e.min_z, e.max_z].map(|v| v.to_bits());
                assert_eq!(bits, want);
            }
        }
        seen += 1;
        while i < 4 && c[i] >= i {
            c[i] = 0;
            i += 1;
        }
        if i == 4 {
            break;
        }
        if i % 2 == 0 {
            order.swap(0, i);
        } else {
            order.swap(c[i], i);
        }
        c[i] += 1;
        i = 0;
    }
    assert_eq!(seen, 24);
}

#[test]
fn merge_puts_two_trees_under_one_root() {
    let left = grow(&[ball(0.0, 0.0, 0.0, 1.0, Material::create_colored_1())]);
    let right = grow(&[ball(5.0, 0.0, 0.0, 1.0, Material::create_colored_2())]);
    let tree = left.merge::<Ieee>(right);
    match &tree {
        BoundingBoxTree::Node(node) => {
            assert!(node.left.is_some() && node.right.is_some());
            assert_eq!((f(node.bounding_box.min_x), f(node.bounding_box.max_x)), (-1.0, 6.0));
            assert_eq!((f(node.bounding_box.min_y), f(node.bounding_box.max_y)), (-1.0, 1.0));
        }
        _ => panic!("a merge gives a vertex"),
    }
    let (object, _) = shoot_ray::<Ieee>(&tree, &along_x()).unwrap();
    assert_eq!(f(object.material.diffuse.red), 0.2);
}

#[test]
fn default_tree_is_empty() {
    match BoundingBoxTree::default() {
        BoundingBoxTree::Node(node) => {
            assert!(node.left.is_none() && node.right.is_none());
            assert_eq!(node.bounding_box.max_z.to_bits(), 0);
        }
        _ => panic!("the empty tree is a vertex"),
    }
}

#[test]
fn is_populated_and_is_well_formed_tell_the_shapes_apart() {
    let empty = BoundingBoxTree::create_empty();
    assert!(empty.is_well_formed());
    assert!(!empty.is_populated());
    let one = grow(&[ball(0.0, 0.0, 0.0, 1.0, Material::create_glass())]);
    assert!(one.is_well_formed() && one.is_populated());
    let four = grow(&[
        ball(0.0, 0.0, 0.0, 1.0, Material::create_glass()),
        ball(3.0, 0.0, 0.0, 1.0, Material::create_glass()),
        ball(0.0, 5.0, 0.0, 1.0, Material::create_glass()),
        ball(0.0, 0.0, 9.0, 1.0, Material::create_glass()),
    ]);
    assert!(four.is_well_formed() && four.is_populated());
    let leaf = || Box::new(BoundingBoxTree::Leaf(Leaf { object: ball(0.0, 0.0, 0.0, 1.0, Material::create_glass()) }));
    let right_only = BoundingBoxTree::Node(Node { bounding_box: BoundingBox::default(), left: None, right: Some(leaf()) });
    assert!(!right_only.is_well_formed());
    assert!(!right_only.is_populated());
    let hollow = BoundingBoxTree::Node(Node {
        bounding_box: BoundingBox::default(),
        left: Some(Box::new(BoundingBoxTree::create_empty())),
        right: Some(leaf()),
    });
    assert!(hollow.is_well_formed());
    assert!(!hollow.is_populated());
    let crooked = BoundingBoxTree::Node(Node {
        bounding_box: BoundingBox::default(),
        left: Some(leaf()),
        right: Some(Box::new(right_only)),
    });
    assert!(!crooked.is_well_formed());
}
