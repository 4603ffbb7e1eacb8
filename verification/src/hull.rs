//! What adding objects does to a tree, and why the order of adding does not
//! show in the box of its root.

use vstd::prelude::*;
use vstd::multiset::Multiset;
use crate::arith::Arithmetic;
use crate::bbox::BoundingBox;
use crate::bbox::BoundingBoxTree;
use crate::scalar::lemma_min_max_associate;
use crate::scalar::lemma_min_max_commute;
use crate::scalar::lemma_rank_injective;
use crate::scalar::Scalar;
use crate::scene::Object;

verus! {

/// The smallest of the values, taken from the first to the last.
pub open spec fn least(values: Seq<Scalar>) -> Scalar
    decreases values.len(),
{
    if values.len() == 0 {
        Scalar { bits: 0 }
    } else if values.len() == 1 {
        values[0]
    } else {
        least(values.drop_last()).spec_min(values.last())
    }
}

/// The largest of the values, taken from the first to the last.
pub open spec fn greatest(values: Seq<Scalar>) -> Scalar
    decreases values.len(),
{
    if values.len() == 0 {
        Scalar { bits: 0 }
    } else if values.len() == 1 {
        values[0]
    } else {
        greatest(values.drop_last()).spec_max(values.last())
    }
}

/// The smallest box around all the boxes, taken from the first to the last;
/// the box of zeros for no boxes at all.
pub open spec fn hull(boxes: Seq<BoundingBox>) -> BoundingBox
    decreases boxes.len(),
{
    if boxes.len() == 0 {
        BoundingBox::zeroed()
    } else if boxes.len() == 1 {
        boxes[0]
    } else {
        hull(boxes.drop_last()).union(boxes.last())
    }
}

/// The boxes of the objects, in their order.
pub open spec fn boxes_of<K: Arithmetic>(objects: Seq<Object>) -> Seq<BoundingBox> {
    Seq::new(objects.len(), |i: int| objects[i].shape.spec_bounding_box::<K>())
}

/// The tree that comes of adding the objects, first to last, to the empty
/// tree.
pub open spec fn grown<K: Arithmetic>(objects: Seq<Object>) -> BoundingBoxTree
    decreases objects.len(),
{
    if objects.len() == 0 {
        BoundingBoxTree::empty(BoundingBox::zeroed())
    } else {
        grown::<K>(objects.drop_last()).inserted::<K>(objects.last())
    }
}

/// Every member of `a` is a member of `b`.
pub open spec fn within<T>(a: Seq<T>, b: Seq<T>) -> bool {
    forall|i: int| 0 <= i < a.len() ==> b.contains(#[trigger] a[i])
}

/// The smallest box around two boxes does not depend on which is named
/// first, and nesting three either way gives the same box.
pub proof fn lemma_union_commutes_and_associates(a: BoundingBox, b: BoundingBox, c: BoundingBox)
    ensures
        a.union(b) == b.union(a),
        a.union(b).union(c) == a.union(b.union(c)),
{
    lemma_min_max_commute(a.min_x, b.min_x);
    lemma_min_max_commute(a.min_y, b.min_y);
    lemma_min_max_commute(a.min_z, b.min_z);
    lemma_min_max_commute(a.max_x, b.max_x);
    lemma_min_max_commute(a.max_y, b.max_y);
    lemma_min_max_commute(a.max_z, b.max_z);
    lemma_min_max_associate(a.min_x, b.min_x, c.min_x);
    lemma_min_max_associate(a.min_y, b.min_y, c.min_y);
    lemma_min_max_associate(a.min_z, b.min_z, c.min_z);
    lemma_min_max_associate(a.max_x, b.max_x, c.max_x);
    lemma_min_max_associate(a.max_y, b.max_y, c.max_y);
    lemma_min_max_associate(a.max_z, b.max_z, c.max_z);
}

/// Adding an object keeps a tree a tree, adds the object to what the tree
/// holds and nothing else, and leaves no vertex empty if none was empty
/// below the root.
pub proof fn lemma_inserted_holds_one_more<K: Arithmetic>(tree: BoundingBoxTree, object: Object)
    requires
        tree.well_formed(),
    ensures
        tree.inserted::<K>(object).well_formed(),
        tree.inserted::<K>(object).objects() == tree.objects().insert(object),
        tree.inserted::<K>(object).size() == tree.size() + 1,
        tree.inserted::<K>(object) is Node,
        !tree.inserted::<K>(object).is_empty(),
        tree.populated() || tree.is_empty() ==> tree.inserted::<K>(object).populated(),
    decreases tree,
{
    broadcast use vstd::multiset::group_multiset_axioms;

    reveal_with_fuel(BoundingBoxTree::objects, 3);
    reveal_with_fuel(BoundingBoxTree::size, 3);
    reveal_with_fuel(BoundingBoxTree::well_formed, 3);
    reveal_with_fuel(BoundingBoxTree::populated, 3);
    match tree {
        BoundingBoxTree::Leaf(leaf) => {
            assert(tree.inserted::<K>(object).objects() =~= tree.objects().insert(object));
        },
        BoundingBoxTree::Node(node) => match (node.left, node.right) {
            (None, None) => {
                assert(tree.inserted::<K>(object).objects() =~= tree.objects().insert(object));
            },
            (Some(l), None) => {
                assert(tree.inserted::<K>(object).objects() =~= tree.objects().insert(object));
            },
            (Some(l), Some(r)) => {
                lemma_inserted_holds_one_more::<K>(*l, object);
                lemma_inserted_holds_one_more::<K>(*r, object);
                assert(tree.inserted::<K>(object).objects() =~= tree.objects().insert(object));
            },
            (None, Some(_)) => {},
        },
    }
}

/// A tree without an empty vertex, or the empty tree itself, is a tree.
pub proof fn lemma_populated_is_well_formed(tree: BoundingBoxTree)
    requires
        tree.populated() || tree.is_empty(),
    ensures
        tree.well_formed(),
    decreases tree,
{
    match tree {
        BoundingBoxTree::Leaf(_) => {},
        BoundingBoxTree::Node(node) => {
            match node.left {
                Some(l) => {
                    lemma_populated_is_well_formed(*l);
                },
                None => {},
            }
            match node.right {
                Some(r) => {
                    if tree.populated() {
                        lemma_populated_is_well_formed(*r);
                    }
                },
                None => {},
            }
        },
    }
}

/// The box of the root after an addition: the box of the object alone for
/// the empty tree, else the smallest box around the old box and the
/// object's.
pub proof fn lemma_inserted_root_box<K: Arithmetic>(tree: BoundingBoxTree, object: Object)
    requires
        tree.well_formed(),
    ensures
        tree.inserted::<K>(object).spec_bounding_box::<K>() == if tree.is_empty() {
            object.shape.spec_bounding_box::<K>()
        } else {
            tree.spec_bounding_box::<K>().union(object.shape.spec_bounding_box::<K>())
        },
{
    let object_box = object.shape.spec_bounding_box::<K>();
    lemma_union_commutes_and_associates(object_box, tree.spec_bounding_box::<K>(), object_box);
}

/// Adding an object keeps the boxes tight: if every vertex carried the
/// smallest box around its children before, every vertex does so after.
/// This is said of trees without an empty vertex below the root, the only
/// ones that additions to the empty tree give.
pub proof fn lemma_inserted_stays_tight<K: Arithmetic>(tree: BoundingBoxTree, object: Object)
    requires
        tree.populated() || tree.is_empty(),
        tree.tight::<K>(),
    ensures
        tree.inserted::<K>(object).tight::<K>(),
    decreases tree,
{
    reveal_with_fuel(BoundingBoxTree::tight, 3);
    reveal_with_fuel(BoundingBoxTree::populated, 3);
    lemma_populated_is_well_formed(tree);
    let object_box = object.shape.spec_bounding_box::<K>();
    match tree {
        BoundingBoxTree::Leaf(leaf) => {
            lemma_union_commutes_and_associates(
                object_box,
                leaf.object.shape.spec_bounding_box::<K>(),
                object_box,
            );
        },
        BoundingBoxTree::Node(node) => match (node.left, node.right) {
            (None, None) => {},
            (Some(l), None) => {},
            (Some(l), Some(r)) => {
                let lb = l.spec_bounding_box::<K>();
                let rb = r.spec_bounding_box::<K>();
                lemma_populated_is_well_formed(*l);
                lemma_populated_is_well_formed(*r);
                lemma_inserted_stays_tight::<K>(*l, object);
                lemma_inserted_stays_tight::<K>(*r, object);
                lemma_inserted_holds_one_more::<K>(*l, object);
                lemma_inserted_holds_one_more::<K>(*r, object);
                lemma_inserted_root_box::<K>(*l, object);
                lemma_inserted_root_box::<K>(*r, object);
                let grown_box = lb.union(rb).union(object_box);
                assert(grown_box == lb.union(rb.union(object_box))) by {
                    lemma_union_commutes_and_associates(lb, rb, object_box);
                }
                assert(grown_box == lb.union(object_box).union(rb)) by {
                    lemma_union_commutes_and_associates(lb, rb, object_box);
                    lemma_union_commutes_and_associates(rb, object_box, lb);
                    lemma_union_commutes_and_associates(lb, object_box, rb);
                }
            },
            (None, Some(_)) => {},
        },
    }
}

/// What a tree grown from the empty tree is like: it is a tree, it holds
/// the objects it was given and no others, and every vertex carries the
/// smallest box around its children. With at least one object no vertex is
/// empty, and the box of the root is the smallest box around the boxes of
/// all the objects.
pub proof fn lemma_grown_tree<K: Arithmetic>(objects: Seq<Object>)
    ensures
        grown::<K>(objects).well_formed(),
        grown::<K>(objects).tight::<K>(),
        grown::<K>(objects).objects() == objects.to_multiset(),
        grown::<K>(objects).size() == objects.len(),
        objects.len() == 0 ==> grown::<K>(objects).is_empty(),
        objects.len() > 0 ==> grown::<K>(objects).populated(),
        objects.len() > 0 ==> grown::<K>(objects).spec_bounding_box::<K>() == hull(
            boxes_of::<K>(objects),
        ),
    decreases objects.len(),
{
    broadcast use vstd::multiset::group_multiset_axioms;

    if objects.len() == 0 {
        assert(objects.to_multiset() =~= Multiset::empty()) by {
            objects.to_multiset_ensures();
        }
        assert(grown::<K>(objects).objects() =~= Multiset::empty());
    } else {
        let before = objects.drop_last();
        let tree = grown::<K>(before);
        lemma_grown_tree::<K>(before);
        lemma_inserted_holds_one_more::<K>(tree, objects.last());
        lemma_inserted_stays_tight::<K>(tree, objects.last());
        lemma_inserted_root_box::<K>(tree, objects.last());
        assert(objects.to_multiset() =~= before.to_multiset().insert(objects.last())) by {
            before.to_multiset_ensures();
            assert(before.push(objects.last()) =~= objects);
        }
        assert(boxes_of::<K>(objects).drop_last() =~= boxes_of::<K>(before));
        if before.len() == 0 {
            assert(boxes_of::<K>(objects).len() == 1);
        } else {
            assert(!tree.is_empty());
        }
    }
}

/// The smallest of values none of which is a NaN is one of them, and none
/// of them comes before it.
pub proof fn lemma_least_is_minimum(values: Seq<Scalar>)
    requires
        values.len() > 0,
        forall|i: int| 0 <= i < values.len() ==> !(#[trigger] values[i]).nan(),
    ensures
        !least(values).nan(),
        values.contains(least(values)),
        forall|i: int| 0 <= i < values.len() ==> least(values).rank() <= (#[trigger] values[i]).rank(),
    decreases values.len(),
{
    if values.len() == 1 {
        assert(values[0] == least(values));
    } else {
        let before = values.drop_last();
        lemma_least_is_minimum(before);
        let k = choose|k: int| 0 <= k < before.len() && before[k] == least(before);
        assert(values[k] == least(before));
        assert(values[values.len() - 1] == values.last());
        assert forall|i: int| 0 <= i < values.len() implies least(values).rank() <= (
        #[trigger] values[i]).rank() by {
            if i < before.len() {
                assert(before[i] == values[i]);
            }
        }
    }
}

/// The largest of values none of which is a NaN is one of them, and none
/// of them comes after it.
pub proof fn lemma_greatest_is_maximum(values: Seq<Scalar>)
    requires
        values.len() > 0,
        forall|i: int| 0 <= i < values.len() ==> !(#[trigger] values[i]).nan(),
    ensures
        !greatest(values).nan(),
        values.contains(greatest(values)),
        forall|i: int|
            0 <= i < values.len() ==> greatest(values).rank() >= (#[trigger] values[i]).rank(),
    decreases values.len(),
{
    if values.len() == 1 {
        assert(values[0] == greatest(values));
    } else {
        let before = values.drop_last();
        lemma_greatest_is_maximum(before);
        let k = choose|k: int| 0 <= k < before.len() && before[k] == greatest(before);
        assert(values[k] == greatest(before));
        assert(values[values.len() - 1] == values.last());
        assert forall|i: int| 0 <= i < values.len() implies greatest(values).rank() >= (
        #[trigger] values[i]).rank() by {
            if i < before.len() {
                assert(before[i] == values[i]);
            }
        }
    }
}

/// Two sequences with the same members have the same smallest and the same
/// largest value, whatever the order and however often a value occurs.
pub proof fn lemma_extremes_ignore_order(a: Seq<Scalar>, b: Seq<Scalar>)
    requires
        a.len() > 0,
        b.len() > 0,
        within(a, b),
        within(b, a),
        forall|i: int| 0 <= i < a.len() ==> !(#[trigger] a[i]).nan(),
    ensures
        least(a) == least(b),
        greatest(a) == greatest(b),
{
    assert forall|j: int| 0 <= j < b.len() implies !(#[trigger] b[j]).nan() by {
        assert(a.contains(b[j]));
    }
    lemma_least_is_minimum(a);
    lemma_least_is_minimum(b);
    lemma_greatest_is_maximum(a);
    lemma_greatest_is_maximum(b);
    let ia = choose|i: int| 0 <= i < a.len() && a[i] == least(a);
    let ib = choose|i: int| 0 <= i < b.len() && b[i] == least(b);
    assert(b.contains(a[ia]));
    assert(a.contains(b[ib]));
    lemma_rank_injective(least(a), least(b));
    let ja = choose|i: int| 0 <= i < a.len() && a[i] == greatest(a);
    let jb = choose|i: int| 0 <= i < b.len() && b[i] == greatest(b);
    assert(b.contains(a[ja]));
    assert(a.contains(b[jb]));
    lemma_rank_injective(greatest(a), greatest(b));
}

/// One of the six bounds of a box.
pub enum Bound {
    MinX,
    MaxX,
    MinY,
    MaxY,
    MinZ,
    MaxZ,
}

/// The named bound of the box.
pub open spec fn bound_of(b: BoundingBox, which: Bound) -> Scalar {
    match which {
        Bound::MinX => b.min_x,
        Bound::MaxX => b.max_x,
        Bound::MinY => b.min_y,
        Bound::MaxY => b.max_y,
        Bound::MinZ => b.min_z,
        Bound::MaxZ => b.max_z,
    }
}

/// The named bound of every box, in the order of the boxes.
pub open spec fn bounds(boxes: Seq<BoundingBox>, which: Bound) -> Seq<Scalar> {
    Seq::new(boxes.len(), |i: int| bound_of(boxes[i], which))
}

/// The smallest box around boxes has, on each axis, the smallest of their
/// lower bounds and the largest of their upper bounds.
pub proof fn lemma_hull_by_bounds(boxes: Seq<BoundingBox>)
    requires
        boxes.len() > 0,
    ensures
        hull(boxes) == (BoundingBox {
            min_x: least(bounds(boxes, Bound::MinX)),
            max_x: greatest(bounds(boxes, Bound::MaxX)),
            min_y: least(bounds(boxes, Bound::MinY)),
            max_y: greatest(bounds(boxes, Bound::MaxY)),
            min_z: least(bounds(boxes, Bound::MinZ)),
            max_z: greatest(bounds(boxes, Bound::MaxZ)),
        }),
    decreases boxes.len(),
{
    if boxes.len() > 1 {
        let before = boxes.drop_last();
        lemma_hull_by_bounds(before);
        assert forall|which: Bound| #[trigger]
            bounds(boxes, which).drop_last() == bounds(before, which) by {
            assert(bounds(boxes, which).drop_last() =~= bounds(before, which));
        }
    }
}

/// Boxes with the same members have, bound by bound, the same smallest and
/// the same largest value, provided no bound is a NaN.
pub proof fn lemma_bound_ignores_order(a: Seq<BoundingBox>, b: Seq<BoundingBox>, which: Bound)
    requires
        a.len() > 0,
        b.len() > 0,
        within(a, b),
        within(b, a),
        forall|i: int| 0 <= i < a.len() ==> (#[trigger] a[i]).ordered(),
    ensures
        least(bounds(a, which)) == least(bounds(b, which)),
        greatest(bounds(a, which)) == greatest(bounds(b, which)),
{
    let column_a = bounds(a, which);
    let column_b = bounds(b, which);
    assert forall|i: int| 0 <= i < column_a.len() implies column_b.contains(
        #[trigger] column_a[i],
    ) && !column_a[i].nan() by {
        assert(a[i].ordered());
        assert(b.contains(a[i]));
        let j = choose|j: int| 0 <= j < b.len() && b[j] == a[i];
        assert(column_b[j] == column_a[i]);
    }
    assert forall|i: int| 0 <= i < column_b.len() implies column_a.contains(
        #[trigger] column_b[i],
    ) by {
        assert(a.contains(b[i]));
        let j = choose|j: int| 0 <= j < a.len() && a[j] == b[i];
        assert(column_a[j] == column_b[i]);
    }
    lemma_extremes_ignore_order(column_a, column_b);
}

/// The smallest box around a set of boxes does not depend on the order in
/// which they are taken: two sequences with the same members give the same
/// box, provided no bound is a NaN.
pub proof fn lemma_hull_ignores_order(a: Seq<BoundingBox>, b: Seq<BoundingBox>)
    requires
        a.len() > 0,
        b.len() > 0,
        within(a, b),
        within(b, a),
        forall|i: int| 0 <= i < a.len() ==> (#[trigger] a[i]).ordered(),
    ensures
        hull(a) == hull(b),
{
    lemma_hull_by_bounds(a);
    lemma_hull_by_bounds(b);
    lemma_bound_ignores_order(a, b, Bound::MinX);
    lemma_bound_ignores_order(a, b, Bound::MaxX);
    lemma_bound_ignores_order(a, b, Bound::MinY);
    lemma_bound_ignores_order(a, b, Bound::MaxY);
    lemma_bound_ignores_order(a, b, Bound::MinZ);
    lemma_bound_ignores_order(a, b, Bound::MaxZ);
}

/// The box of the root does not tell in which order the objects were added:
/// two trees grown from the same objects, taken in any two orders, carry the
/// same box at the root, and it is the smallest box around the boxes of all
/// the objects. This is said of objects whose boxes have no NaN for a bound.
pub proof fn lemma_root_box_ignores_order<K: Arithmetic>(first: Seq<Object>, second: Seq<Object>)
    requires
        first.len() > 0,
        first.to_multiset() == second.to_multiset(),
        forall|i: int|
            0 <= i < first.len() ==> (#[trigger] first[i]).shape.spec_bounding_box::<K>().ordered(),
    ensures
        grown::<K>(first).spec_bounding_box::<K>() == hull(boxes_of::<K>(first)),
        grown::<K>(second).spec_bounding_box::<K>() == grown::<K>(first).spec_bounding_box::<K>(),
{
    broadcast use vstd::multiset::group_multiset_axioms;

    first.to_multiset_ensures();
    second.to_multiset_ensures();
    assert(second.len() == first.len());
    lemma_grown_tree::<K>(first);
    lemma_grown_tree::<K>(second);
    let a = boxes_of::<K>(first);
    let b = boxes_of::<K>(second);
    assert forall|i: int| 0 <= i < a.len() implies b.contains(#[trigger] a[i]) by {
        assert(first.contains(first[i]));
        assert(second.to_multiset().count(first[i]) > 0);
        assert(second.contains(first[i]));
        let j = choose|j: int| 0 <= j < second.len() && second[j] == first[i];
        assert(b[j] == a[i]);
    }
    assert forall|i: int| 0 <= i < b.len() implies a.contains(#[trigger] b[i]) by {
        assert(second.contains(second[i]));
        assert(first.to_multiset().count(second[i]) > 0);
        assert(first.contains(second[i]));
        let j = choose|j: int| 0 <= j < first.len() && first[j] == second[i];
        assert(a[j] == b[i]);
    }
    assert forall|i: int| 0 <= i < a.len() implies (#[trigger] a[i]).ordered() by {
        assert(first[i].shape.spec_bounding_box::<K>().ordered());
    }
    lemma_hull_ignores_order(a, b);
}

} // verus!
