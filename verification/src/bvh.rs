//! The bounding-volume hierarchy: a binary tree of boxes over the shapes of
//! a scene.

use crate::aabb::AABB;
use crate::hittable::{closer, HitRecord, Hittable, HittableList};
use crate::random::random_axis;
use crate::ray::Ray;
use crate::scalar::Scalar;
use crate::sphere::in_span;
use std::sync::Arc;
use vstd::prelude::*;

verus! {

pub struct BVHNode {
    pub left: Arc<Hittable>,
    pub right: Arc<Hittable>,
    pub box_: AABB,
}

/// Why no hierarchy could be built.
#[derive(Clone, Copy, Debug, PartialEq, Eq)]
pub enum BvhError {
    /// The list holds no shape.
    Empty,
    /// A shape of the list has no bounding box.
    Unbounded,
}

impl BvhError {
    /// The error in words.
    pub fn message(&self) -> (text: String)
        ensures
            text@ == match self {
                BvhError::Empty => "a hierarchy cannot be built of no shape"@,
                BvhError::Unbounded => "a shape without a bounding box cannot be put in a hierarchy"@,
            },
    {
        match self {
            BvhError::Empty => "a hierarchy cannot be built of no shape".to_owned(),
            BvhError::Unbounded => "a shape without a bounding box cannot be put in a hierarchy".to_owned(),
        }
    }
}

/// The key by which a shape is sorted along an axis: the raw value of the
/// least coordinate of its box on that axis, if it has a box.
pub open spec fn sort_key(object: Arc<Hittable>, axis: usize, time0: Scalar, time1: Scalar) -> Option<
    int,
> {
    match object.bounding_box_spec(time0, time1) {
        Some(b) => Some(b.min.axis(axis)@),
        None => None,
    }
}

/// Every shape has a box.
pub open spec fn all_bounded(objects: Seq<Arc<Hittable>>, time0: Scalar, time1: Scalar) -> bool {
    forall|i: int|
        0 <= i < objects.len() ==> (#[trigger] objects[i]).bounding_box_spec(time0, time1) is Some
}

/// The shapes stand in the order of their keys along the axis.
pub open spec fn sorted_along(
    objects: Seq<Arc<Hittable>>,
    axis: usize,
    time0: Scalar,
    time1: Scalar,
) -> bool {
    forall|i: int, j: int|
        0 <= i < j < objects.len() ==> (#[trigger] sort_key(objects[i], axis, time0, time1)
            matches Some(a) && #[trigger] sort_key(objects[j], axis, time0, time1) matches Some(b)
            && a <= b)
}

/// `keys` holds the key of each shape.
pub open spec fn keys_match(
    keys: Seq<i64>,
    objects: Seq<Arc<Hittable>>,
    axis: usize,
    time0: Scalar,
    time1: Scalar,
) -> bool {
    &&& keys.len() == objects.len()
    &&& forall|i: int|
        0 <= i < objects.len() ==> Some(#[trigger] keys[i] as int) == sort_key(
            objects[i],
            axis,
            time0,
            time1,
        )
}

/// The keys of the shapes along the axis, or nothing where a shape has no
/// box.
fn keys_of(objects: &Vec<Arc<Hittable>>, axis: usize, time0: Scalar, time1: Scalar) -> (r: Option<
    Vec<i64>,
>)
    requires
        axis < 3,
    ensures
        r is Some <==> all_bounded(objects@, time0, time1),
        r matches Some(keys) ==> keys_match(keys@, objects@, axis, time0, time1),
{
    let mut keys: Vec<i64> = Vec::new();
    let mut i: usize = 0;
    while i < objects.len()
        invariant
            i <= objects@.len(),
            axis < 3,
            keys@.len() == i,
            forall|j: int|
                0 <= j < i ==> Some(#[trigger] keys@[j] as int) == sort_key(
                    objects@[j],
                    axis,
                    time0,
                    time1,
                ),
        decreases objects@.len() - i,
    {
        match objects[i].bounding_box(time0, time1) {
            None => {
                return None;
            },
            Some(b) => {
                keys.push(b.min.axis(axis).value());
            },
        }
        i = i + 1;
    }
    assert forall|j: int| 0 <= j < objects@.len() implies (#[trigger] objects@[j]).bounding_box_spec(
        time0,
        time1,
    ) is Some by {
        assert(Some(keys@[j] as int) == sort_key(objects@[j], axis, time0, time1));
    }
    Some(keys)
}

/// Sorts the shapes by their keys, smallest first, by insertion.
fn sort_by_keys(
    objects: &mut Vec<Arc<Hittable>>,
    keys: &mut Vec<i64>,
    axis: usize,
    time0: Scalar,
    time1: Scalar,
)
    requires
        keys_match(old(keys)@, old(objects)@, axis, time0, time1),
    ensures
        keys_match(final(keys)@, final(objects)@, axis, time0, time1),
        final(objects)@.len() == old(objects)@.len(),
        final(objects)@.to_multiset() == old(objects)@.to_multiset(),
        sorted_along(final(objects)@, axis, time0, time1),
{
    let n: usize = objects.len();
    let mut i: usize = 0;
    while i < n
        invariant
            i <= n,
            n == objects@.len(),
            keys_match(keys@, objects@, axis, time0, time1),
            objects@.to_multiset() == old(objects)@.to_multiset(),
            forall|a: int, b: int| 0 <= a < b < i ==> keys@[a] <= keys@[b],
        decreases n - i,
    {
        let mut j: usize = i;
        while j > 0 && keys[j - 1] > keys[j]
            invariant
                j <= i < n,
                n == objects@.len(),
                keys_match(keys@, objects@, axis, time0, time1),
                objects@.to_multiset() == old(objects)@.to_multiset(),
                forall|a: int, b: int| 0 <= a < b <= i && b != j ==> keys@[a] <= keys@[b],
            decreases j,
        {
            let low_key: i64 = keys[j];
            let high_key: i64 = keys[j - 1];
            let low: Arc<Hittable> = objects[j].clone();
            let high: Arc<Hittable> = objects[j - 1].clone();
            proof {
                broadcast use {
                    vstd::seq_lib::group_to_multiset_ensures,
                    vstd::multiset::group_multiset_properties,
                    vstd::multiset::group_multiset_axioms,
                };

                let s0 = objects@;
                let s1 = s0.update(j - 1, low);
                let s2 = s1.update(j as int, high);
                assert(s1.to_multiset() == s0.to_multiset().insert(low).remove(high));
                assert(s2.to_multiset() == s1.to_multiset().insert(high).remove(low));
                assert(s2.to_multiset() =~= s0.to_multiset());
            }
            keys.set(j - 1, low_key);
            keys.set(j, high_key);
            objects.set(j - 1, low);
            objects.set(j, high);
            j = j - 1;
        }
        i = i + 1;
    }
    assert forall|a: int, b: int| 0 <= a < b < objects@.len() implies (#[trigger] sort_key(
        objects@[a],
        axis,
        time0,
        time1,
    ) matches Some(x) && #[trigger] sort_key(objects@[b], axis, time0, time1) matches Some(y) && x
        <= y) by {
        assert(Some(keys@[a] as int) == sort_key(objects@[a], axis, time0, time1));
        assert(Some(keys@[b] as int) == sort_key(objects@[b], axis, time0, time1));
    }
}

/// Copies the shapes from `from` up to `to` into a list of their own.
fn part(objects: &Vec<Arc<Hittable>>, from: usize, to: usize) -> (r: HittableList)
    requires
        from <= to <= objects@.len(),
    ensures
        r.objects@ == objects@.subrange(from as int, to as int),
{
    let mut out: Vec<Arc<Hittable>> = Vec::new();
    let mut i: usize = from;
    while i < to
        invariant
            from <= i <= to <= objects@.len(),
            out@ == objects@.subrange(from as int, i as int),
        decreases to - i,
    {
        out.push(objects[i].clone());
        assert(out@ =~= objects@.subrange(from as int, i + 1));
        i = i + 1;
    }
    HittableList { objects: out }
}

/// `tree` is a hierarchy that the build makes of the shapes: a node whose
/// box surrounds the boxes of its two children, where, for the shapes put
/// in order along some axis, both children are the one shape if there is
/// only one, and else the left child is such a hierarchy of the first half
/// (rounded down) and the right child one of the rest.
pub open spec fn built_from(
    tree: Arc<Hittable>,
    objects: Seq<Arc<Hittable>>,
    time0: Scalar,
    time1: Scalar,
) -> bool
    decreases objects.len(),
{
    &&& *tree matches Hittable::BVH(node)
    &&& node.left.bounding_box_spec(time0, time1) matches Some(box_left)
    &&& node.right.bounding_box_spec(time0, time1) matches Some(box_right)
    &&& node.box_ == box_left.surrounding_box(box_right)
    &&& exists|axis: usize, order: Seq<Arc<Hittable>>|
        {
            &&& axis < 3
            &&& order.len() == objects.len()
            &&& order.to_multiset() == objects.to_multiset()
            &&& #[trigger] sorted_along(order, axis, time0, time1)
            &&& if order.len() == 1 {
                node.left == order[0] && node.right == order[0]
            } else {
                &&& order.len() >= 2
                &&& built_from(
                    node.left,
                    order.subrange(0, order.len() as int / 2),
                    time0,
                    time1,
                )
                &&& built_from(
                    node.right,
                    order.subrange(order.len() as int / 2, order.len() as int),
                    time0,
                    time1,
                )
            }
        }
}

impl BVHNode {
    /// Builds the hierarchy over the shapes of the list for the time
    /// interval. At each level an axis is drawn, the shapes are sorted by
    /// the least coordinate of their boxes on it and split at the middle.
    /// An empty list and a shape without a box are refused.
    pub fn from_list(list: HittableList, time0: Scalar, time1: Scalar) -> (r: Result<
        Arc<Hittable>,
        BvhError,
    >)
        ensures
            r == Err::<Arc<Hittable>, BvhError>(BvhError::Empty) <==> list.objects@.len() == 0,
            r == Err::<Arc<Hittable>, BvhError>(BvhError::Unbounded) <==> list.objects@.len() > 0
                && !all_bounded(list.objects@, time0, time1),
            r matches Ok(tree) ==> built_from(tree, list.objects@, time0, time1),
        decreases list.objects@.len(),
    {
        let mut objects: Vec<Arc<Hittable>> = list.objects;
        let n: usize = objects.len();
        if n == 0 {
            return Err(BvhError::Empty);
        }
        let axis: usize = random_axis();
        let mut keys: Vec<i64> = match keys_of(&objects, axis, time0, time1) {
            None => {
                return Err(BvhError::Unbounded);
            },
            Some(keys) => keys,
        };
        let ghost given = objects@;
        sort_by_keys(&mut objects, &mut keys, axis, time0, time1);
        let ghost order = objects@;
        proof {
            lemma_bounded_by_keys(keys@, order, axis, time0, time1);
        }
        let left: Arc<Hittable>;
        let right: Arc<Hittable>;
        if n == 1 {
            left = objects[0].clone();
            right = objects[0].clone();
        } else {
            let mid: usize = n / 2;
            let first: HittableList = part(&objects, 0, mid);
            let rest: HittableList = part(&objects, mid, n);
            proof {
                lemma_part_bounded(order, 0, mid as int, time0, time1);
                lemma_part_bounded(order, mid as int, n as int, time0, time1);
            }
            left = match BVHNode::from_list(first, time0, time1) {
                Ok(tree) => tree,
                Err(e) => {
                    return Err(e);
                },
            };
            right = match BVHNode::from_list(rest, time0, time1) {
                Ok(tree) => tree,
                Err(e) => {
                    return Err(e);
                },
            };
        }
        let box_left: AABB = match left.bounding_box(time0, time1) {
            Some(b) => b,
            None => {
                return Err(BvhError::Unbounded);
            },
        };
        let box_right: AABB = match right.bounding_box(time0, time1) {
            Some(b) => b,
            None => {
                return Err(BvhError::Unbounded);
            },
        };
        let tree: Arc<Hittable> = Arc::new(
            Hittable::BVH(BVHNode::new(left, right, box_left.surrounding_box(box_right))),
        );
        assert(built_from(tree, given, time0, time1)) by {
            assert(sorted_along(order, axis, time0, time1));
        }
        Ok(tree)
    }

    pub open spec fn spec_new(left: Arc<Hittable>, right: Arc<Hittable>, box_: AABB) -> BVHNode {
        BVHNode { left, right, box_ }
    }

    #[verifier::when_used_as_spec(spec_new)]
    pub fn new(left: Arc<Hittable>, right: Arc<Hittable>, box_: AABB) -> (r: BVHNode)
        ensures
            r == BVHNode::spec_new(left, right, box_),
    {
        BVHNode { left, right, box_ }
    }

    /// Nothing where the ray misses the node's box; else the nearer of the
    /// hits on the two children, each asked over the whole interval.
    pub fn hit(&self, ray: &Ray, t_min: Scalar, t_max: Scalar) -> (r: Option<HitRecord>)
        ensures
            if self.box_.hit_spec(ray, t_min, t_max) {
                exists|left: Option<HitRecord>, right: Option<HitRecord>|
                    self.left.may_hit(ray, t_min, t_max, left) && self.right.may_hit(
                        ray,
                        t_min,
                        t_max,
                        right,
                    ) && r == #[trigger] closer(left, right)
            } else {
                r is None
            },
            self.left.deterministic() && self.right.deterministic() ==> r == if self.box_.hit_spec(
                ray,
                t_min,
                t_max,
            ) {
                closer(
                    self.left.hit_spec(ray, t_min, t_max),
                    self.right.hit_spec(ray, t_min, t_max),
                )
            } else {
                None
            },
            r matches Some(record) ==> in_span(record.t, t_min, t_max),
        decreases self, 0int,
    {
        if !self.box_.hit(ray, t_min, t_max) {
            return None;
        }
        let hit_left: Option<HitRecord> = self.left.hit(ray, t_min, t_max);
        let hit_right: Option<HitRecord> = self.right.hit(ray, t_min, t_max);
        let ghost left = hit_left;
        let ghost right = hit_right;
        let r = match (hit_left, hit_right) {
            (Some(l), Some(r)) => if l.t.lt(r.t) {
                Some(l)
            } else {
                Some(r)
            },
            (Some(l), None) => Some(l),
            (None, r) => r,
        };
        assert(r == closer(left, right));
        r
    }

    /// The node's own box.
    pub fn bounding_box(&self, time0: Scalar, time1: Scalar) -> (r: Option<AABB>)
        ensures
            r == Some(self.box_),
    {
        Some(self.box_)
    }
}

/// The shapes at the leaves of a hierarchy, from left to right; a shape
/// that is no node of a hierarchy is its own single leaf.
pub open spec fn leaves(tree: Arc<Hittable>) -> Seq<Arc<Hittable>>
    decreases tree,
{
    match *tree {
        Hittable::BVH(node) => leaves(node.left) + leaves(node.right),
        _ => seq![tree],
    }
}

/// The brute-force scan: every shape is asked for its hit over the whole
/// interval, one after the other, and the nearer hit is kept.
pub open spec fn scan_spec(
    shapes: Seq<Arc<Hittable>>,
    ray: &Ray,
    t_min: Scalar,
    t_max: Scalar,
) -> Option<HitRecord>
    decreases shapes.len(),
{
    if shapes.len() == 0 {
        None
    } else {
        closer(
            scan_spec(shapes.drop_last(), ray, t_min, t_max),
            shapes.last().hit_spec(ray, t_min, t_max),
        )
    }
}

/// No box of the hierarchy turns the ray away while a leaf below it has a
/// hit within the interval.
pub open spec fn culling_safe(tree: Arc<Hittable>, ray: &Ray, t_min: Scalar, t_max: Scalar) -> bool
    decreases tree,
{
    match *tree {
        Hittable::BVH(node) => {
            &&& node.box_.hit_spec(ray, t_min, t_max) || scan_spec(
                leaves(tree),
                ray,
                t_min,
                t_max,
            ) is None
            &&& culling_safe(node.left, ray, t_min, t_max)
            &&& culling_safe(node.right, ray, t_min, t_max)
        },
        _ => true,
    }
}

/// Keeping the nearer hit does not depend on how three outcomes are
/// grouped.
proof fn lemma_closer_associative(a: Option<HitRecord>, b: Option<HitRecord>, c: Option<HitRecord>)
    ensures
        closer(closer(a, b), c) == closer(a, closer(b, c)),
{
}

/// Scanning two lists one after the other keeps the nearer of what the
/// scans of each keep.
proof fn lemma_scan_concat(
    a: Seq<Arc<Hittable>>,
    b: Seq<Arc<Hittable>>,
    ray: &Ray,
    t_min: Scalar,
    t_max: Scalar,
)
    ensures
        scan_spec(a + b, ray, t_min, t_max) == closer(
            scan_spec(a, ray, t_min, t_max),
            scan_spec(b, ray, t_min, t_max),
        ),
    decreases b.len(),
{
    if b.len() == 0 {
        assert(a + b =~= a);
    } else {
        assert((a + b).drop_last() =~= a + b.drop_last());
        assert((a + b).last() == b.last());
        lemma_scan_concat(a, b.drop_last(), ray, t_min, t_max);
        lemma_closer_associative(
            scan_spec(a, ray, t_min, t_max),
            scan_spec(b.drop_last(), ray, t_min, t_max),
            b.last().hit_spec(ray, t_min, t_max),
        );
    }
}

/// For every hierarchy, ray and interval: where no box turns the ray away
/// from a hit below it, the hit that the hierarchy finds is the very one
/// that a scan of all its leaves over the same interval finds: the same
/// parameter, material and every other field. (The hits are those of
/// `hit_spec`, which `hit` returns for shapes without a medium.)
pub proof fn law_hierarchy_agrees_with_scan(
    tree: Arc<Hittable>,
    ray: Ray,
    t_min: Scalar,
    t_max: Scalar,
)
    requires
        culling_safe(tree, &ray, t_min, t_max),
    ensures
        tree.hit_spec(&ray, t_min, t_max) == scan_spec(leaves(tree), &ray, t_min, t_max),
    decreases tree,
{
    match *tree {
        Hittable::BVH(node) => {
            law_hierarchy_agrees_with_scan(node.left, ray, t_min, t_max);
            law_hierarchy_agrees_with_scan(node.right, ray, t_min, t_max);
            lemma_scan_concat(leaves(node.left), leaves(node.right), &ray, t_min, t_max);
            assert(tree.hit_spec(&ray, t_min, t_max) == scan_spec(
                leaves(tree),
                &ray,
                t_min,
                t_max,
            ));
        },
        _ => {
            assert(seq![tree].drop_last() =~= Seq::<Arc<Hittable>>::empty());
            assert(seq![tree].last() == tree);
            assert(scan_spec(seq![tree].drop_last(), &ray, t_min, t_max) is None);
            assert(tree.hit_spec(&ray, t_min, t_max) == scan_spec(
                leaves(tree),
                &ray,
                t_min,
                t_max,
            ));
        },
    }
}

/// The node at the root of a hierarchy.
pub open spec fn root_node(tree: Arc<Hittable>) -> BVHNode {
    tree->BVH_0
}

/// Two lists with the same shapes, each as often, hold the same shapes.
proof fn lemma_same_members(a: Seq<Arc<Hittable>>, b: Seq<Arc<Hittable>>, x: Arc<Hittable>)
    requires
        a.to_multiset() == b.to_multiset(),
    ensures
        a.contains(x) == b.contains(x),
{
    broadcast use vstd::seq_lib::group_to_multiset_ensures;

    assert(a.contains(x) <==> a.to_multiset().count(x) > 0);
    assert(b.contains(x) <==> b.to_multiset().count(x) > 0);
}

/// A hierarchy built of shapes none of which is itself a hierarchy has
/// exactly those shapes at its leaves.
pub proof fn law_built_tree_holds_objects(
    tree: Arc<Hittable>,
    objects: Seq<Arc<Hittable>>,
    time0: Scalar,
    time1: Scalar,
    x: Arc<Hittable>,
)
    requires
        built_from(tree, objects, time0, time1),
        forall|i: int| 0 <= i < objects.len() ==> !((*#[trigger] objects[i]) is BVH),
    ensures
        leaves(tree).contains(x) <==> objects.contains(x),
    decreases objects.len(),
{
    let node = root_node(tree);
    let (axis, order) = choose|axis: usize, order: Seq<Arc<Hittable>>|
        {
            &&& axis < 3
            &&& order.len() == objects.len()
            &&& order.to_multiset() == objects.to_multiset()
            &&& #[trigger] sorted_along(order, axis, time0, time1)
            &&& if order.len() == 1 {
                node.left == order[0] && node.right == order[0]
            } else {
                &&& order.len() >= 2
                &&& built_from(
                    node.left,
                    order.subrange(0, order.len() as int / 2),
                    time0,
                    time1,
                )
                &&& built_from(
                    node.right,
                    order.subrange(order.len() as int / 2, order.len() as int),
                    time0,
                    time1,
                )
            }
        };
    lemma_same_members(order, objects, x);
    assert forall|i: int| 0 <= i < order.len() implies !((*#[trigger] order[i]) is BVH) by {
        lemma_same_members(order, objects, order[i]);
        assert(order.contains(order[i]));
        let j = choose|j: int| 0 <= j < objects.len() && objects[j] == order[i];
        assert(!((*objects[j]) is BVH));
    }
    let all = leaves(node.left) + leaves(node.right);
    assert(leaves(tree) == all);
    if order.len() == 1 {
        assert(!((*order[0]) is BVH));
        assert(leaves(order[0]) == seq![order[0]]);
        if all.contains(x) {
            let k = choose|k: int| 0 <= k < all.len() && all[k] == x;
            assert(x == order[0]);
            assert(order.contains(x));
        }
        if order.contains(x) {
            let k = choose|k: int| 0 <= k < order.len() && order[k] == x;
            assert(all[0] == x);
            assert(all.contains(x));
        }
    } else {
        let mid = order.len() as int / 2;
        let first = order.subrange(0, mid);
        let rest = order.subrange(mid, order.len() as int);
        assert forall|i: int| 0 <= i < first.len() implies !((*#[trigger] first[i]) is BVH) by {
            assert(first[i] == order[i]);
        }
        assert forall|i: int| 0 <= i < rest.len() implies !((*#[trigger] rest[i]) is BVH) by {
            assert(rest[i] == order[mid + i]);
        }
        law_built_tree_holds_objects(node.left, first, time0, time1, x);
        law_built_tree_holds_objects(node.right, rest, time0, time1, x);
        if all.contains(x) {
            let k = choose|k: int| 0 <= k < all.len() && all[k] == x;
            if k < leaves(node.left).len() {
                assert(leaves(node.left)[k] == x);
                assert(leaves(node.left).contains(x));
                let m = choose|m: int| 0 <= m < first.len() && first[m] == x;
                assert(order[m] == x);
            } else {
                assert(leaves(node.right)[k - leaves(node.left).len()] == x);
                assert(leaves(node.right).contains(x));
                let m = choose|m: int| 0 <= m < rest.len() && rest[m] == x;
                assert(order[mid + m] == x);
            }
            assert(order.contains(x));
        }
        if order.contains(x) {
            let k = choose|k: int| 0 <= k < order.len() && order[k] == x;
            if k < mid {
                assert(first[k] == x);
                assert(first.contains(x));
                let m = choose|m: int|
                    0 <= m < leaves(node.left).len() && leaves(node.left)[m] == x;
                assert(all[m] == x);
            } else {
                assert(rest[k - mid] == x);
                assert(rest.contains(x));
                let m = choose|m: int|
                    0 <= m < leaves(node.right).len() && leaves(node.right)[m] == x;
                assert(all[leaves(node.left).len() + m] == x);
            }
            assert(all.contains(x));
        }
    }
}

/// A hierarchy built of deterministic shapes is deterministic: `hit`
/// returns what `hit_spec` says.
pub proof fn law_built_tree_is_deterministic(
    tree: Arc<Hittable>,
    objects: Seq<Arc<Hittable>>,
    time0: Scalar,
    time1: Scalar,
)
    requires
        built_from(tree, objects, time0, time1),
        forall|i: int| 0 <= i < objects.len() ==> (#[trigger] objects[i]).deterministic(),
    ensures
        tree.deterministic(),
    decreases objects.len(),
{
    let node = root_node(tree);
    let (axis, order) = choose|axis: usize, order: Seq<Arc<Hittable>>|
        {
            &&& axis < 3
            &&& order.len() == objects.len()
            &&& order.to_multiset() == objects.to_multiset()
            &&& #[trigger] sorted_along(order, axis, time0, time1)
            &&& if order.len() == 1 {
                node.left == order[0] && node.right == order[0]
            } else {
                &&& order.len() >= 2
                &&& built_from(
                    node.left,
                    order.subrange(0, order.len() as int / 2),
                    time0,
                    time1,
                )
                &&& built_from(
                    node.right,
                    order.subrange(order.len() as int / 2, order.len() as int),
                    time0,
                    time1,
                )
            }
        };
    assert forall|i: int| 0 <= i < order.len() implies (#[trigger] order[i]).deterministic() by {
        lemma_same_members(order, objects, order[i]);
        assert(order.contains(order[i]));
        let j = choose|j: int| 0 <= j < objects.len() && objects[j] == order[i];
        assert(objects[j].deterministic());
    }
    if order.len() == 1 {
        assert(order[0].deterministic());
    } else {
        let mid = order.len() as int / 2;
        let first = order.subrange(0, mid);
        let rest = order.subrange(mid, order.len() as int);
        assert forall|i: int| 0 <= i < first.len() implies (#[trigger] first[i]).deterministic() by {
            assert(first[i] == order[i]);
        }
        assert forall|i: int| 0 <= i < rest.len() implies (#[trigger] rest[i]).deterministic() by {
            assert(rest[i] == order[mid + i]);
        }
        law_built_tree_is_deterministic(node.left, first, time0, time1);
        law_built_tree_is_deterministic(node.right, rest, time0, time1);
    }
}

/// Shapes that have keys have boxes.
proof fn lemma_bounded_by_keys(
    keys: Seq<i64>,
    objects: Seq<Arc<Hittable>>,
    axis: usize,
    time0: Scalar,
    time1: Scalar,
)
    requires
        keys_match(keys, objects, axis, time0, time1),
    ensures
        all_bounded(objects, time0, time1),
{
    assert forall|i: int| 0 <= i < objects.len() implies (#[trigger] objects[i]).bounding_box_spec(
        time0,
        time1,
    ) is Some by {
        assert(Some(keys[i] as int) == sort_key(objects[i], axis, time0, time1));
    }
}

/// A part of a list of bounded shapes is a list of bounded shapes.
proof fn lemma_part_bounded(
    objects: Seq<Arc<Hittable>>,
    from: int,
    to: int,
    time0: Scalar,
    time1: Scalar,
)
    requires
        0 <= from <= to <= objects.len(),
        all_bounded(objects, time0, time1),
    ensures
        all_bounded(objects.subrange(from, to), time0, time1),
{
    let sub = objects.subrange(from, to);
    assert forall|i: int| 0 <= i < sub.len() implies (#[trigger] sub[i]).bounding_box_spec(
        time0,
        time1,
    ) is Some by {
        assert(sub[i] == objects[from + i]);
    }
}

} // verus!
