//! Finding what a ray hits first.

use vstd::prelude::*;
use crate::arith::exact;
use crate::arith::Arithmetic;
use crate::bbox::BoundingBoxTree;
use crate::math::Intersection;
use crate::math::Ray;
use crate::scene::Object;

verus! {

/// An object together with the place where a ray meets it.
pub type Hit = (Object, Intersection);

/// What `ray` meets on `object`, with the object.
pub open spec fn hit_on<K: Arithmetic>(object: Object, ray: Ray) -> Option<Hit> {
    match object.shape.intersection::<K>(ray) {
        Some(h) => Some((object, h)),
        None => None,
    }
}

/// The better of the best hit so far and the next one: the next hit takes
/// over only if it is strictly nearer.
pub open spec fn nearer(best: Option<Hit>, next: Option<Hit>) -> Option<Hit> {
    match (best, next) {
        (_, None) => best,
        (None, Some(_)) => next,
        (Some(b), Some(n)) => if n.1.distance.spec_lt(b.1.distance) {
            next
        } else {
            best
        },
    }
}

/// The best hit after a search of `tree` that starts out with `best`.
///
/// A leaf offers what the ray meets on its object. A vertex whose box the
/// ray does not enter is passed over with all that is below it; otherwise
/// its right child is searched, then its left child.
pub open spec fn searched<K: Arithmetic>(
    tree: BoundingBoxTree,
    ray: Ray,
    best: Option<Hit>,
) -> Option<Hit>
    decreases tree,
{
    match tree {
        BoundingBoxTree::Leaf(leaf) => nearer(best, hit_on::<K>(leaf.object, ray)),
        BoundingBoxTree::Node(node) => if node.bounding_box.intersects::<K>(ray) {
            let after_right = match node.right {
                Some(r) => searched::<K>(*r, ray, best),
                None => best,
            };
            match node.left {
                Some(l) => searched::<K>(*l, ray, after_right),
                None => after_right,
            }
        } else {
            best
        },
    }
}

/// The hits that a search of `tree` comes by, in the order in which it comes
/// by them.
pub open spec fn offered<K: Arithmetic>(tree: BoundingBoxTree, ray: Ray) -> Seq<Hit>
    decreases tree,
{
    match tree {
        BoundingBoxTree::Leaf(leaf) => match hit_on::<K>(leaf.object, ray) {
            Some(h) => seq![h],
            None => seq![],
        },
        BoundingBoxTree::Node(node) => if node.bounding_box.intersects::<K>(ray) {
            (match node.right {
                Some(r) => offered::<K>(*r, ray),
                None => seq![],
            }) + (match node.left {
                Some(l) => offered::<K>(*l, ray),
                None => seq![],
            })
        } else {
            seq![]
        },
    }
}

/// No hit among `hits` is strictly nearer than `best`.
pub open spec fn none_nearer(hits: Seq<Hit>, best: Hit) -> bool {
    forall|i: int| 0 <= i < hits.len() ==> !(#[trigger] hits[i]).1.distance.spec_lt(best.1.distance)
}

/// The best hit once the trees on the pile have been searched, the last one
/// first, starting out with `best`.
pub open spec fn drained<K: Arithmetic>(
    pile: Seq<&BoundingBoxTree>,
    ray: Ray,
    best: Option<Hit>,
) -> Option<Hit>
    decreases pile.len(),
{
    if pile.len() == 0 {
        best
    } else {
        drained::<K>(pile.drop_last(), ray, searched::<K>(*pile.last(), ray, best))
    }
}

/// Number of vertices in the tree.
pub open spec fn vertices(tree: BoundingBoxTree) -> nat
    decreases tree,
{
    match tree {
        BoundingBoxTree::Leaf(_) => 1,
        BoundingBoxTree::Node(node) => {
            1 + (match node.left {
                Some(l) => vertices(*l),
                None => 0,
            }) + (match node.right {
                Some(r) => vertices(*r),
                None => 0,
            })
        },
    }
}

/// Number of vertices in all the trees on the pile.
pub open spec fn load(pile: Seq<&BoundingBoxTree>) -> nat
    decreases pile.len(),
{
    if pile.len() == 0 {
        0
    } else {
        load(pile.drop_last()) + vertices(*pile.last())
    }
}

proof fn lemma_push<K: Arithmetic>(
    pile: Seq<&BoundingBoxTree>,
    tree: &BoundingBoxTree,
    ray: Ray,
    best: Option<Hit>,
)
    ensures
        load(pile.push(tree)) == load(pile) + vertices(*tree),
        drained::<K>(pile.push(tree), ray, best) == drained::<K>(
            pile,
            ray,
            searched::<K>(*tree, ray, best),
        ),
{
    assert(pile.push(tree).drop_last() =~= pile);
}

/// The nearest thing that `ray` hits in the tree, with the place of the hit.
///
/// The search keeps a pile of subtrees still to be looked at and goes on
/// until the pile is used up. It gives `None` exactly if the ray meets none
/// of the objects that the search comes by.
pub fn shoot_ray<'a, K: Arithmetic>(tree: &'a BoundingBoxTree, ray: &Ray) -> (found: Option<
    (&'a Object, Intersection),
>)
    requires
        exact::<K>(),
    ensures
        match found {
            Some((object, hit)) => searched::<K>(*tree, *ray, None) == Some((*object, hit)),
            None => searched::<K>(*tree, *ray, None) is None,
        },
{
    let mut lumber_pile: Vec<&'a BoundingBoxTree> = Vec::new();
    lumber_pile.push(tree);
    let mut closest_intersection: Option<(&'a Object, Intersection)> = None;
    proof {
        lemma_push::<K>(Seq::empty(), tree, *ray, None);
        assert(lumber_pile@ =~= Seq::<&BoundingBoxTree>::empty().push(tree));
    }
    while lumber_pile.len() > 0
        invariant
            exact::<K>(),
            drained::<K>(lumber_pile@, *ray, unborrowed(closest_intersection)) == searched::<K>(
                *tree,
                *ray,
                None,
            ),
        decreases load(lumber_pile@),
    {
        let ghost before = lumber_pile@;
        let ghost best = unborrowed(closest_intersection);
        let subtree = lumber_pile.pop().unwrap();
        let ghost rest = lumber_pile@;
        proof {
            assert(rest =~= before.drop_last());
            assert(subtree == before.last());
        }
        match subtree {
            BoundingBoxTree::Node(node) => {
                if node.bounding_box.check_intersects::<K>(ray) {
                    let ghost after_right = match &node.right {
                        Some(r) => searched::<K>(**r, *ray, best),
                        None => best,
                    };
                    match &node.left {
                        Some(l) => {
                            proof {
                                lemma_push::<K>(lumber_pile@, &**l, *ray, after_right);
                            }
                            lumber_pile.push(l);
                        },
                        None => {},
                    }
                    match &node.right {
                        Some(r) => {
                            proof {
                                lemma_push::<K>(lumber_pile@, &**r, *ray, best);
                            }
                            lumber_pile.push(r);
                        },
                        None => {},
                    }
                }
            },
            BoundingBoxTree::Leaf(leaf) => {
                let new_intersection = leaf.object.shape.intersect::<K>(ray);
                match new_intersection {
                    Some(hit) => match closest_intersection {
                        Some((_, held)) => {
                            if hit.distance.lt(held.distance) {
                                closest_intersection = Some((&leaf.object, hit));
                            }
                        },
                        None => {
                            closest_intersection = Some((&leaf.object, hit));
                        },
                    },
                    None => {},
                }
            },
        }
    }
    closest_intersection
}

/// The hit with the object itself in place of the reference to it.
pub open spec fn unborrowed(found: Option<(&Object, Intersection)>) -> Option<Hit> {
    match found {
        Some((object, hit)) => Some((*object, hit)),
        None => None,
    }
}

/// The best of `hits`, taken in their order, starting out with `best`.
pub open spec fn chosen(best: Option<Hit>, hits: Seq<Hit>) -> Option<Hit>
    decreases hits.len(),
{
    if hits.len() == 0 {
        best
    } else {
        nearer(chosen(best, hits.drop_last()), Some(hits.last()))
    }
}

/// Choosing among two runs of hits, one after the other, is choosing among
/// the second run with the choice from the first to start with.
pub proof fn lemma_chosen_in_two_runs(best: Option<Hit>, first: Seq<Hit>, second: Seq<Hit>)
    ensures
        chosen(best, first + second) == chosen(chosen(best, first), second),
    decreases second.len(),
{
    if second.len() == 0 {
        assert(first + second =~= first);
    } else {
        lemma_chosen_in_two_runs(best, first, second.drop_last());
        assert((first + second).drop_last() =~= first + second.drop_last());
        assert((first + second).last() == second.last());
    }
}

/// A search finds the best of the hits that it comes by.
pub proof fn lemma_searched_is_chosen<K: Arithmetic>(
    tree: BoundingBoxTree,
    ray: Ray,
    best: Option<Hit>,
)
    ensures
        searched::<K>(tree, ray, best) == chosen(best, offered::<K>(tree, ray)),
    decreases tree,
{
    match tree {
        BoundingBoxTree::Leaf(leaf) => {
            match hit_on::<K>(leaf.object, ray) {
                Some(h) => {
                    reveal_with_fuel(chosen, 2);
                    assert(seq![h].drop_last() =~= Seq::<Hit>::empty());
                },
                None => {},
            }
        },
        BoundingBoxTree::Node(node) => {
            if node.bounding_box.intersects::<K>(ray) {
                let on_right = match node.right {
                    Some(r) => offered::<K>(*r, ray),
                    None => seq![],
                };
                let on_left = match node.left {
                    Some(l) => offered::<K>(*l, ray),
                    None => seq![],
                };
                let after_right = match node.right {
                    Some(r) => searched::<K>(*r, ray, best),
                    None => best,
                };
                match node.right {
                    Some(r) => {
                        lemma_searched_is_chosen::<K>(*r, ray, best);
                    },
                    None => {},
                }
                match node.left {
                    Some(l) => {
                        lemma_searched_is_chosen::<K>(*l, ray, after_right);
                    },
                    None => {},
                }
                lemma_chosen_in_two_runs(best, on_right, on_left);
            }
        },
    }
}

/// The best of a run of hits is one of them, and none of them is strictly
/// nearer. There is no best hit only where there is no hit.
pub proof fn lemma_chosen_is_nearest(hits: Seq<Hit>)
    ensures
        hits.len() == 0 <==> chosen(None, hits) is None,
        chosen(None, hits) matches Some(h) ==> hits.contains(h) && none_nearer(hits, h),
    decreases hits.len(),
{
    if hits.len() > 0 {
        let before = hits.drop_last();
        let last = hits.last();
        lemma_chosen_is_nearest(before);
        let h = chosen(None, hits)->0;
        assert(hits[hits.len() - 1] == last);
        match chosen(None, before) {
            Some(b) => {
                let k = choose|k: int| 0 <= k < before.len() && before[k] == b;
                assert(hits[k] == b);
                assert forall|i: int| 0 <= i < hits.len() implies !(
                #[trigger] hits[i]).1.distance.spec_lt(h.1.distance) by {
                    if i < before.len() {
                        assert(before[i] == hits[i]);
                    }
                }
            },
            None => {
                assert(before.len() == 0);
            },
        }
    }
}

/// Every hit that a search comes by is what the ray meets on an object of
/// the tree.
pub proof fn lemma_offered_from_tree<K: Arithmetic>(tree: BoundingBoxTree, ray: Ray)
    ensures
        forall|i: int|
            0 <= i < offered::<K>(tree, ray).len() ==> {
                let h = #[trigger] offered::<K>(tree, ray)[i];
                tree.objects().count(h.0) > 0 && h.0.shape.intersection::<K>(ray) == Some(h.1)
            },
    decreases tree,
{
    broadcast use vstd::multiset::group_multiset_axioms;

    match tree {
        BoundingBoxTree::Leaf(leaf) => {},
        BoundingBoxTree::Node(node) => {
            match node.right {
                Some(r) => {
                    lemma_offered_from_tree::<K>(*r, ray);
                },
                None => {},
            }
            match node.left {
                Some(l) => {
                    lemma_offered_from_tree::<K>(*l, ray);
                },
                None => {},
            }
        },
    }
}

/// What a search of the whole tree gives: nothing, if the ray meets none of
/// the objects that the search comes by; else an object of the tree with the
/// place where the ray meets it, such that the ray meets no object that the
/// search comes by at a strictly smaller distance.
pub proof fn lemma_search_finds_nearest<K: Arithmetic>(tree: BoundingBoxTree, ray: Ray)
    ensures
        searched::<K>(tree, ray, None) is None <==> offered::<K>(tree, ray).len() == 0,
        searched::<K>(tree, ray, None) matches Some(h) ==> {
            &&& tree.objects().count(h.0) > 0
            &&& h.0.shape.intersection::<K>(ray) == Some(h.1)
            &&& none_nearer(offered::<K>(tree, ray), h)
        },
{
    lemma_searched_is_chosen::<K>(tree, ray, None);
    lemma_chosen_is_nearest(offered::<K>(tree, ray));
    lemma_offered_from_tree::<K>(tree, ray);
    match searched::<K>(tree, ray, None) {
        Some(h) => {
            let k = choose|k: int|
                0 <= k < offered::<K>(tree, ray).len() && offered::<K>(tree, ray)[k] == h;
            assert(offered::<K>(tree, ray)[k] == h);
        },
        None => {},
    }
}

} // verus!
