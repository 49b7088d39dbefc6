//! The scene graph: an arena of nodes addressed by stable indices.
//!
//! Each node holds its local transform parameters, an optional handle to
//! GPU-resident geometry, a cached world transform, and the indices of its
//! children. Children are always appended after their parent, so every
//! edge points forward in the arena: the tree is acyclic by construction,
//! and a node acquires exactly one parent, when `add_child` creates it.

use vstd::prelude::*;
use crate::transform::{
    apply_point_model, compose, compose_fits, compose_model, identity_model,
    lemma_identity_at_root, lemma_parent_through_identity_child, lemma_pivot_fixed,
    lemma_pivot_offset, lemma_place_is_left_translation, local_model, local_transform,
    node_world_model, place, place_model, rotate_vec_model, rotation_model, rotation_wf,
    transform_wf, vec3_add_model, vec3_in_range, zero_rotation_model, zero_vec3_model, Rotation,
    Transform, TransformModel, Vec3, Vec3Model,
};

verus! {

/// Opaque, copyable reference to GPU-resident vertex and index data, plus
/// the number of indices to draw. Handles are shared freely between nodes;
/// the geometry itself is owned by the geometry pool, never by a node.
#[derive(Clone, Copy, PartialEq, Eq, Structural, Debug)]
pub struct GeometryHandle {
    pub vao_id: u32,
    pub index_count: u32,
}

/// A node of the scene tree.
#[derive(Debug)]
pub struct SceneNode {
    /// Local translation, applied last of all: after the rotation about the
    /// pivot and after the composition with the parent's world transform.
    pub position: Vec3,
    /// Euler angles, applied in z, then y, then x order about the pivot.
    pub rotation: Rotation,
    /// The pivot about which the rotation is applied, in local space.
    pub reference_point: Vec3,
    /// Geometry to draw at this node; `None` makes a pure grouping node.
    pub geometry: Option<GeometryHandle>,
    /// Cache of the accumulated world transform; recomputed every frame
    /// and never read before that frame's recompute.
    pub world_transform: Transform,
    /// Arena indices of the children, in insertion order.
    pub children: Vec<usize>,
}

/// The scene tree, owned by a single root at index 0.
pub struct SceneGraph {
    pub nodes: Vec<SceneNode>,
}

/// The node's local transform parameters lie in the ranges the transform
/// engine accepts.
pub open spec fn node_params_wf(n: SceneNode) -> bool {
    &&& vec3_in_range(n.position@)
    &&& vec3_in_range(n.reference_point@)
    &&& rotation_wf(n.rotation@)
}

/// The node's pivot-relative local transform, as built by the transform
/// engine: translate to the pivot, rotate about z, y, x, translate back.
/// The node's position is not part of it.
pub open spec fn node_local(n: SceneNode) -> TransformModel {
    local_model(n.rotation@, n.reference_point@)
}

/// The world transform the propagation pass assigns to a node under the
/// incoming `parent` transform: the pivot-relative local transform,
/// composed with the parent, then translated by the node's position — the
/// position is applied after the parent composition, so the parent never
/// rotates it.
pub open spec fn node_world(parent: TransformModel, n: SceneNode) -> TransformModel {
    node_world_model(parent, n.position@, n.rotation@, n.reference_point@)
}

/// Both steps of the node's world transform stay in the representable
/// range: the parent composition, and the position translation after it.
pub open spec fn node_fits(parent: TransformModel, n: SceneNode) -> bool {
    &&& compose_fits(parent, node_local(n))
    &&& transform_wf(node_world(parent, n))
}

/// Every edge points forward: a child index lies strictly between its
/// parent's index and the arena length, so the graph is a forest of trees
/// and recursion along edges terminates.
pub open spec fn edges_in_range(ns: Seq<SceneNode>) -> bool {
    forall|j: int, k: int|
        0 <= j < ns.len() && 0 <= k < ns[j].children@.len() ==> j < #[trigger] ns[j].children@[k]
            < ns.len()
}

/// No node is the child of two parents, nor listed twice by one parent.
pub open spec fn edges_unique(ns: Seq<SceneNode>) -> bool {
    forall|j1: int, k1: int, j2: int, k2: int|
        #![trigger ns[j1].children@[k1], ns[j2].children@[k2]]
        0 <= j1 < ns.len() && 0 <= k1 < ns[j1].children@.len() && 0 <= j2 < ns.len() && 0 <= k2
            < ns[j2].children@.len() && ns[j1].children@[k1] == ns[j2].children@[k2] ==> j1 == j2
            && k1 == k2
}

/// Well-formedness of the arena: every node's parameters are in range,
/// and the children lists form a forest of forward-pointing trees.
pub open spec fn wf_nodes(ns: Seq<SceneNode>) -> bool {
    &&& forall|j: int| 0 <= j < ns.len() ==> node_params_wf(#[trigger] ns[j])
    &&& edges_in_range(ns)
    &&& edges_unique(ns)
}

/// Node `j` lies in the subtree rooted at node `i` (including `i` itself).
pub open spec fn in_subtree(ns: Seq<SceneNode>, i: int, j: int) -> bool
    decreases ns.len() - i,
        when wf_nodes(ns) && 0 <= i < ns.len()
{
    ||| i == j
    ||| exists|k: int|
        #![trigger ns[i].children@[k]]
        0 <= k < ns[i].children@.len() && in_subtree(ns, ns[i].children@[k] as int, j)
}

/// The two sequences agree on everything except the world-transform
/// caches: same length, and every node keeps its local parameters, its
/// geometry and its children.
pub open spec fn same_structure(a: Seq<SceneNode>, b: Seq<SceneNode>) -> bool {
    &&& a.len() == b.len()
    &&& forall|j: int|
        0 <= j < a.len() ==> {
            &&& (#[trigger] b[j]).position == a[j].position
            &&& b[j].rotation == a[j].rotation
            &&& b[j].reference_point == a[j].reference_point
            &&& b[j].geometry == a[j].geometry
            &&& b[j].children == a[j].children
        }
}

/// Well-formedness only reads the structure, never the world caches.
pub proof fn lemma_wf_same_structure(a: Seq<SceneNode>, b: Seq<SceneNode>)
    requires
        wf_nodes(a),
        same_structure(a, b),
    ensures
        wf_nodes(b),
{
    assert forall|j: int| 0 <= j < b.len() implies node_params_wf(#[trigger] b[j]) by {
        assert(node_params_wf(a[j]));
    }
    assert forall|j: int, k: int|
        0 <= j < b.len() && 0 <= k < b[j].children@.len() implies j < #[trigger] b[j].children@[k]
        < b.len() by {
        assert(b[j].children == a[j].children);
        assert(a[j].children@[k] == b[j].children@[k]);
    }
    assert forall|j1: int, k1: int, j2: int, k2: int|
        #![trigger b[j1].children@[k1], b[j2].children@[k2]]
        0 <= j1 < b.len() && 0 <= k1 < b[j1].children@.len() && 0 <= j2 < b.len() && 0 <= k2
            < b[j2].children@.len() && b[j1].children@[k1] == b[j2].children@[k2] implies j1 == j2
        && k1 == k2 by {
        assert(b[j1].children == a[j1].children);
        assert(b[j2].children == a[j2].children);
        assert(a[j1].children@[k1] == a[j2].children@[k2]);
    }
}

/// Subtree membership only reads the structure.
pub proof fn lemma_in_subtree_same_structure(a: Seq<SceneNode>, b: Seq<SceneNode>, i: int, j: int)
    requires
        wf_nodes(a),
        same_structure(a, b),
        0 <= i < a.len(),
    ensures
        in_subtree(b, i, j) == in_subtree(a, i, j),
    decreases a.len() - i,
{
    lemma_wf_same_structure(a, b);
    assert(b[i].children == a[i].children);
    if exists|k: int|
        #![trigger a[i].children@[k]]
        0 <= k < a[i].children@.len() && in_subtree(a, a[i].children@[k] as int, j) {
        let k = choose|k: int|
            #![trigger a[i].children@[k]]
            0 <= k < a[i].children@.len() && in_subtree(a, a[i].children@[k] as int, j);
        lemma_in_subtree_same_structure(a, b, a[i].children@[k] as int, j);
        assert(b[i].children@[k] == a[i].children@[k]);
    }
    if exists|k: int|
        #![trigger b[i].children@[k]]
        0 <= k < b[i].children@.len() && in_subtree(b, b[i].children@[k] as int, j) {
        let k = choose|k: int|
            #![trigger b[i].children@[k]]
            0 <= k < b[i].children@.len() && in_subtree(b, b[i].children@[k] as int, j);
        lemma_in_subtree_same_structure(a, b, a[i].children@[k] as int, j);
        assert(b[i].children@[k] == a[i].children@[k]);
    }
}

/// Everything in the subtree of `i` lies at `i` or beyond in the arena.
pub proof fn lemma_subtree_lower_bound(ns: Seq<SceneNode>, i: int, j: int)
    requires
        wf_nodes(ns),
        0 <= i < ns.len(),
        in_subtree(ns, i, j),
    ensures
        i <= j < ns.len(),
    decreases ns.len() - i,
{
    if i != j {
        let k = choose|k: int|
            #![trigger ns[i].children@[k]]
            0 <= k < ns[i].children@.len() && in_subtree(ns, ns[i].children@[k] as int, j);
        lemma_subtree_lower_bound(ns, ns[i].children@[k] as int, j);
    }
}

/// A strict descendant is reached through exactly one final edge, whose
/// parent also lies in the subtree.
pub proof fn lemma_parent_edge(ns: Seq<SceneNode>, r: int, j: int)
    requires
        wf_nodes(ns),
        0 <= r < ns.len(),
        in_subtree(ns, r, j),
        j != r,
    ensures
        exists|p: int, k: int|
            #![trigger ns[p].children@[k]]
            0 <= p < ns.len() && 0 <= k < ns[p].children@.len() && ns[p].children@[k] == j
                && in_subtree(ns, r, p),
    decreases ns.len() - r,
{
    let k0 = choose|k: int|
        #![trigger ns[r].children@[k]]
        0 <= k < ns[r].children@.len() && in_subtree(ns, ns[r].children@[k] as int, j);
    let c = ns[r].children@[k0] as int;
    if c == j {
        assert(in_subtree(ns, r, r));
        assert(0 <= r < ns.len() && 0 <= k0 < ns[r].children@.len() && ns[r].children@[k0] == j
            && in_subtree(ns, r, r));
    } else {
        lemma_parent_edge(ns, c, j);
        let (p, k) = choose|p: int, k: int|
            #![trigger ns[p].children@[k]]
            0 <= p < ns.len() && 0 <= k < ns[p].children@.len() && ns[p].children@[k] == j
                && in_subtree(ns, c, p);
        assert(in_subtree(ns, r, p));
    }
}

/// Two subtrees either nest or are disjoint: if both contain `j`, one
/// root lies in the other's subtree.
pub proof fn lemma_subtrees_nest(ns: Seq<SceneNode>, c1: int, c2: int, j: int)
    requires
        wf_nodes(ns),
        0 <= c1 < ns.len(),
        0 <= c2 < ns.len(),
        in_subtree(ns, c1, j),
        in_subtree(ns, c2, j),
    ensures
        in_subtree(ns, c1, c2) || in_subtree(ns, c2, c1),
    decreases j,
{
    lemma_subtree_lower_bound(ns, c1, j);
    if j == c1 {
        assert(in_subtree(ns, c2, c1));
    } else if j == c2 {
        assert(in_subtree(ns, c1, c2));
    } else {
        lemma_parent_edge(ns, c1, j);
        lemma_parent_edge(ns, c2, j);
        let (p1, k1) = choose|p: int, k: int|
            #![trigger ns[p].children@[k]]
            0 <= p < ns.len() && 0 <= k < ns[p].children@.len() && ns[p].children@[k] == j
                && in_subtree(ns, c1, p);
        let (p2, k2) = choose|p: int, k: int|
            #![trigger ns[p].children@[k]]
            0 <= p < ns.len() && 0 <= k < ns[p].children@.len() && ns[p].children@[k] == j
                && in_subtree(ns, c2, p);
        assert(p1 == p2 && k1 == k2);
        assert(p1 < j);
        lemma_subtrees_nest(ns, c1, c2, p1);
    }
}

/// The subtrees of two distinct children of one parent are disjoint.
pub proof fn lemma_sibling_subtrees_disjoint(
    ns: Seq<SceneNode>,
    i: int,
    k1: int,
    k2: int,
    j: int,
)
    requires
        wf_nodes(ns),
        0 <= i < ns.len(),
        0 <= k1 < ns[i].children@.len(),
        0 <= k2 < ns[i].children@.len(),
        k1 != k2,
        in_subtree(ns, ns[i].children@[k1] as int, j),
    ensures
        !in_subtree(ns, ns[i].children@[k2] as int, j),
{
    let c1 = ns[i].children@[k1] as int;
    let c2 = ns[i].children@[k2] as int;
    assert(c1 != c2);
    if in_subtree(ns, c2, j) {
        lemma_subtrees_nest(ns, c1, c2, j);
        if in_subtree(ns, c1, c2) {
            lemma_parent_edge(ns, c1, c2);
            let (p, k) = choose|p: int, k: int|
                #![trigger ns[p].children@[k]]
                0 <= p < ns.len() && 0 <= k < ns[p].children@.len() && ns[p].children@[k] == c2
                    && in_subtree(ns, c1, p);
            assert(p == i && k == k2);
            lemma_subtree_lower_bound(ns, c1, i);
        } else {
            lemma_parent_edge(ns, c2, c1);
            let (p, k) = choose|p: int, k: int|
                #![trigger ns[p].children@[k]]
                0 <= p < ns.len() && 0 <= k < ns[p].children@.len() && ns[p].children@[k] == c1
                    && in_subtree(ns, c2, p);
            assert(p == i && k == k1);
            lemma_subtree_lower_bound(ns, c2, i);
        }
    }
}

impl SceneNode {
    /// A fresh grouping node: zero local transform, no geometry, no
    /// children, world cache primed with the identity.
    pub fn new() -> (n: SceneNode)
        ensures
            n.position@ == zero_vec3_model(),
            n.rotation@ == zero_rotation_model(),
            n.reference_point@ == zero_vec3_model(),
            n.geometry is None,
            n.world_transform@ == identity_model(),
            n.children@.len() == 0,
            node_params_wf(n),
    {
        SceneNode {
            position: Vec3::zero(),
            rotation: Rotation::zero(),
            reference_point: Vec3::zero(),
            geometry: None,
            world_transform: Transform::identity(),
            children: Vec::new(),
        }
    }

    /// A fresh node that draws the geometry behind the given handle.
    pub fn from_vao(vao_id: u32, index_count: u32) -> (n: SceneNode)
        ensures
            n.position@ == zero_vec3_model(),
            n.rotation@ == zero_rotation_model(),
            n.reference_point@ == zero_vec3_model(),
            n.geometry == Some(GeometryHandle { vao_id, index_count }),
            n.world_transform@ == identity_model(),
            n.children@.len() == 0,
            node_params_wf(n),
    {
        SceneNode {
            position: Vec3::zero(),
            rotation: Rotation::zero(),
            reference_point: Vec3::zero(),
            geometry: Some(GeometryHandle { vao_id, index_count }),
            world_transform: Transform::identity(),
            children: Vec::new(),
        }
    }
}

impl SceneGraph {
    /// A scene with a single root grouping node at index 0.
    pub fn new() -> (g: SceneGraph)
        ensures
            g.nodes@.len() == 1,
            g.nodes@[0].position@ == zero_vec3_model(),
            g.nodes@[0].rotation@ == zero_rotation_model(),
            g.nodes@[0].reference_point@ == zero_vec3_model(),
            g.nodes@[0].geometry is None,
            g.nodes@[0].world_transform@ == identity_model(),
            g.nodes@[0].children@.len() == 0,
            wf_nodes(g.nodes@),
    {
        let mut nodes: Vec<SceneNode> = Vec::new();
        nodes.push(SceneNode::new());
        SceneGraph { nodes }
    }

    pub fn len(&self) -> (n: usize)
        ensures
            n == self.nodes@.len(),
    {
        self.nodes.len()
    }

    /// Append `node` to the arena as a new child of `parent`. The new node
    /// gets the next free index, so every edge keeps pointing forward and
    /// the new node has exactly one parent.
    pub fn add_child(&mut self, parent: usize, node: SceneNode) -> (idx: usize)
        requires
            wf_nodes(old(self).nodes@),
            parent < old(self).nodes@.len(),
            node_params_wf(node),
            node.children@.len() == 0,
            old(self).nodes@.len() < usize::MAX,
        ensures
            idx == old(self).nodes@.len(),
            final(self).nodes@.len() == old(self).nodes@.len() + 1,
            wf_nodes(final(self).nodes@),
            final(self).nodes@[idx as int] == node,
            final(self).nodes@[parent as int].children@ == old(self).nodes@[
                parent as int
            ].children@.push(idx),
            final(self).nodes@[parent as int].position == old(self).nodes@[parent as int].position,
            final(self).nodes@[parent as int].rotation == old(self).nodes@[parent as int].rotation,
            final(self).nodes@[parent as int].reference_point == old(self).nodes@[
                parent as int
            ].reference_point,
            final(self).nodes@[parent as int].geometry == old(self).nodes@[parent as int].geometry,
            final(self).nodes@[parent as int].world_transform == old(self).nodes@[
                parent as int
            ].world_transform,
            forall|j: int|
                0 <= j < old(self).nodes@.len() && j != parent ==> final(self).nodes@[j] == old(
                    self,
                ).nodes@[j],
    {
        let idx = self.nodes.len();
        self.nodes.push(node);
        self.nodes[parent].children.push(idx);
        proof {
            let ns = self.nodes@;
            let ns0 = old(self).nodes@;
            assert forall|j: int| 0 <= j < ns.len() implies node_params_wf(#[trigger] ns[j]) by {
                if j < ns0.len() && j != parent {
                    assert(ns[j] == ns0[j]);
                    assert(node_params_wf(ns0[j]));
                } else if j == parent {
                    assert(node_params_wf(ns0[parent as int]));
                }
            }
            assert forall|j: int, k: int|
                0 <= j < ns.len() && 0 <= k < ns[j].children@.len() implies j
                < #[trigger] ns[j].children@[k] < ns.len() by {
                if j == parent {
                    if k < ns0[j].children@.len() {
                        assert(ns[j].children@[k] == ns0[j].children@[k]);
                    } else {
                        assert(ns[j].children@[k] == idx);
                    }
                } else if j < ns0.len() {
                    assert(ns[j] == ns0[j]);
                } else {
                    assert(ns[j] == node);
                }
            }
            assert forall|j1: int, k1: int, j2: int, k2: int|
                #![trigger ns[j1].children@[k1], ns[j2].children@[k2]]
                0 <= j1 < ns.len() && 0 <= k1 < ns[j1].children@.len() && 0 <= j2 < ns.len() && 0
                    <= k2 < ns[j2].children@.len() && ns[j1].children@[k1] == ns[j2].children@[k2]
                implies j1 == j2 && k1 == k2 by {
                lemma_add_child_edge(ns0, ns, parent as int, idx, j1, k1);
                lemma_add_child_edge(ns0, ns, parent as int, idx, j2, k2);
            }
        }
        idx
    }
}

/// After `add_child`, every edge of the new arena is either an old edge
/// (with a value below the old length) or the single new edge to `idx`.
proof fn lemma_add_child_edge(
    ns0: Seq<SceneNode>,
    ns: Seq<SceneNode>,
    parent: int,
    idx: usize,
    j: int,
    k: int,
)
    requires
        wf_nodes(ns0),
        0 <= parent < ns0.len(),
        idx == ns0.len(),
        ns.len() == ns0.len() + 1,
        ns[idx as int].children@.len() == 0,
        ns[parent].children@ == ns0[parent].children@.push(idx),
        forall|j2: int| 0 <= j2 < ns0.len() && j2 != parent ==> ns[j2] == ns0[j2],
        0 <= j < ns.len(),
        0 <= k < ns[j].children@.len(),
    ensures
        (j == parent && k == ns0[parent].children@.len() && ns[j].children@[k] == idx) || (0 <= j
            < ns0.len() && k < ns0[j].children@.len() && ns[j].children@[k] == ns0[j].children@[k]
            && ns0[j].children@[k] < ns0.len()),
{
    if j == parent {
        if k < ns0[parent].children@.len() {
            assert(ns[j].children@[k] == ns0[j].children@[k]);
        } else {
            assert(ns[j].children@[k] == idx);
        }
    } else if j < ns0.len() {
        assert(ns[j] == ns0[j]);
    }
}


/// Every composition in the subtree rooted at `i`, fed with the incoming
/// `parent` transform, stays within the representable entry range.
pub open spec fn subtree_fits(ns: Seq<SceneNode>, i: int, parent: TransformModel) -> bool
    decreases ns.len() - i, ns[i].children@.len() + 1,
        when wf_nodes(ns) && 0 <= i < ns.len()
{
    &&& node_fits(parent, ns[i])
    &&& children_fit(ns, i, 0, node_world(parent, ns[i]))
}

/// The subtrees of the children of `i` from position `k` on all fit under
/// the world transform `w` of node `i`.
pub open spec fn children_fit(ns: Seq<SceneNode>, i: int, k: int, w: TransformModel) -> bool
    decreases ns.len() - i, ns[i].children@.len() - k,
        when wf_nodes(ns) && 0 <= i < ns.len() && 0 <= k
{
    if k < ns[i].children@.len() {
        &&& subtree_fits(ns, ns[i].children@[k] as int, w)
        &&& children_fit(ns, i, k + 1, w)
    } else {
        true
    }
}

/// `children_fit` is the pointwise statement over the remaining children.
pub proof fn lemma_children_fit_iff(ns: Seq<SceneNode>, i: int, k: int, w: TransformModel)
    requires
        wf_nodes(ns),
        0 <= i < ns.len(),
        0 <= k <= ns[i].children@.len(),
    ensures
        children_fit(ns, i, k, w) <==> (forall|k2: int|
            #![trigger ns[i].children@[k2]]
            k <= k2 < ns[i].children@.len() ==> subtree_fits(ns, ns[i].children@[k2] as int, w)),
    decreases ns[i].children@.len() - k,
{
    if k < ns[i].children@.len() {
        lemma_children_fit_iff(ns, i, k + 1, w);
    }
}

/// Whether the composition fits only reads the structure.
pub proof fn lemma_subtree_fits_same_structure(
    a: Seq<SceneNode>,
    b: Seq<SceneNode>,
    i: int,
    parent: TransformModel,
)
    requires
        wf_nodes(a),
        same_structure(a, b),
        0 <= i < a.len(),
    ensures
        subtree_fits(b, i, parent) == subtree_fits(a, i, parent),
    decreases a.len() - i, a[i].children@.len() + 1,
{
    lemma_wf_same_structure(a, b);
    assert(node_local(b[i]) == node_local(a[i]));
    lemma_children_fit_same_structure(a, b, i, 0, node_world(parent, a[i]));
}

/// Companion of [`lemma_subtree_fits_same_structure`] for the child fold.
pub proof fn lemma_children_fit_same_structure(
    a: Seq<SceneNode>,
    b: Seq<SceneNode>,
    i: int,
    k: int,
    w: TransformModel,
)
    requires
        wf_nodes(a),
        same_structure(a, b),
        0 <= i < a.len(),
        0 <= k,
    ensures
        children_fit(b, i, k, w) == children_fit(a, i, k, w),
    decreases a.len() - i, a[i].children@.len() - k,
{
    lemma_wf_same_structure(a, b);
    assert(b[i].children == a[i].children);
    if k < a[i].children@.len() {
        lemma_subtree_fits_same_structure(a, b, a[i].children@[k] as int, w);
        lemma_children_fit_same_structure(a, b, i, k + 1, w);
    }
}

/// `same_structure` chains.
pub proof fn lemma_same_structure_trans(a: Seq<SceneNode>, b: Seq<SceneNode>, c: Seq<SceneNode>)
    requires
        same_structure(a, b),
        same_structure(b, c),
    ensures
        same_structure(a, c),
{
    assert forall|j: int| 0 <= j < a.len() implies {
        &&& (#[trigger] c[j]).position == a[j].position
        &&& c[j].rotation == a[j].rotation
        &&& c[j].reference_point == a[j].reference_point
        &&& c[j].geometry == a[j].geometry
        &&& c[j].children == a[j].children
    } by {
        assert(b[j].position == a[j].position);
        assert(c[j].position == b[j].position);
    }
}

/// A child of a subtree member is a subtree member.
pub proof fn lemma_subtree_child(ns: Seq<SceneNode>, r: int, p: int, k: int)
    requires
        wf_nodes(ns),
        0 <= r < ns.len(),
        in_subtree(ns, r, p),
        0 <= k < ns[p].children@.len(),
    ensures
        in_subtree(ns, r, ns[p].children@[k] as int),
    decreases ns.len() - r,
{
    lemma_subtree_lower_bound(ns, r, p);
    let c = ns[p].children@[k] as int;
    if r == p {
        assert(in_subtree(ns, c, c));
    } else {
        let k0 = choose|k0: int|
            #![trigger ns[r].children@[k0]]
            0 <= k0 < ns[r].children@.len() && in_subtree(ns, ns[r].children@[k0] as int, p);
        lemma_subtree_child(ns, ns[r].children@[k0] as int, p, k);
    }
}

/// Some child of `i` before position `upto` has `j` in its subtree.
pub open spec fn in_any_child_subtree(ns: Seq<SceneNode>, i: int, upto: int, j: int) -> bool {
    exists|k: int|
        #![trigger ns[i].children@[k]]
        0 <= k < upto && in_subtree(ns, ns[i].children@[k] as int, j)
}

/// What a successful transform-propagation pass over the subtree of `i`
/// guarantees, `ns0` being the arena before the pass and `ns` after it:
/// the structure is untouched, the subtree root's world transform is the
/// incoming `parent` transform composed with its pivot-relative local
/// transform and then translated by its position, and along every edge
/// inside the subtree the child's world transform is built the same way
/// from the parent's fresh world transform.
pub open spec fn propagated(
    ns0: Seq<SceneNode>,
    ns: Seq<SceneNode>,
    i: int,
    parent: TransformModel,
) -> bool {
    &&& same_structure(ns0, ns)
    &&& ns[i].world_transform@ == node_world(parent, ns0[i])
    &&& transform_wf(ns[i].world_transform@)
    &&& forall|p: int, k: int|
        #![trigger ns0[p].children@[k]]
        0 <= p < ns0.len() && in_subtree(ns0, i, p) && 0 <= k < ns0[p].children@.len() ==> ns[
            ns0[p].children@[k] as int
        ].world_transform@ == node_world(ns[p].world_transform@, ns0[ns0[p].children@[k] as int])
}

impl SceneGraph {
    /// Recompute the cached world transform of every node in the subtree
    /// of `i`, depth-first in child order, where `parent` is the incoming
    /// transform of `i`'s parent space. On success every node's cache
    /// equals its parent's fresh world transform composed with the node's
    /// pivot-relative local transform, translated by the node's position
    /// after the composition. Returns false, abandoning the frame, exactly
    /// when some step in the subtree leaves the representable range; nodes
    /// outside the subtree are never touched.
    #[verifier::rlimit(100)]
    pub fn update_node_transformations(&mut self, i: usize, parent: &Transform) -> (ok: bool)
        requires
            wf_nodes(old(self).nodes@),
            i < old(self).nodes@.len(),
            transform_wf(parent@),
        ensures
            same_structure(old(self).nodes@, final(self).nodes@),
            ok == subtree_fits(old(self).nodes@, i as int, parent@),
            forall|j: int|
                0 <= j < old(self).nodes@.len() && !in_subtree(old(self).nodes@, i as int, j)
                    ==> final(self).nodes@[j].world_transform == old(self).nodes@[
                    j
                ].world_transform,
            ok ==> propagated(old(self).nodes@, final(self).nodes@, i as int, parent@),
        decreases old(self).nodes@.len() - i,
    {
        let ghost ns0 = self.nodes@;
        let position = self.nodes[i].position;
        let rotation = self.nodes[i].rotation;
        let reference_point = self.nodes[i].reference_point;
        proof {
            assert(node_params_wf(ns0[i as int]));
        }
        let local = local_transform(&rotation, reference_point);
        let w_opt = compose(parent, &local);
        match w_opt {
            None => {
                proof {
                    assert(!compose_fits(parent@, node_local(ns0[i as int])));
                    assert(!node_fits(parent@, ns0[i as int]));
                    assert(!subtree_fits(ns0, i as int, parent@));
                }
                false
            },
            Some(w0) => {
                // Step 7: translate by the node's position, after the
                // parent composition.
                let w_placed = place(&w0, position);
                let w = match w_placed {
                    None => {
                        proof {
                            lemma_place_is_left_translation(w0@, position@);
                            assert(place_model(w0@, position@) == node_world(
                                parent@,
                                ns0[i as int],
                            ));
                            assert(!node_fits(parent@, ns0[i as int]));
                            assert(!subtree_fits(ns0, i as int, parent@));
                        }
                        return false;
                    },
                    Some(w) => w,
                };
                proof {
                    lemma_place_is_left_translation(w0@, position@);
                    assert(w@ == node_world(parent@, ns0[i as int]));
                    assert(node_fits(parent@, ns0[i as int]));
                }
                self.nodes[i].world_transform = w;
                let ghost wm = w@;
                proof {
                    assert(same_structure(ns0, self.nodes@));
                    lemma_wf_same_structure(ns0, self.nodes@);
                }
                let num = self.nodes[i].children.len();
                let mut k: usize = 0;
                let mut okv: bool = true;
                while k < num
                    invariant
                        ns0 == old(self).nodes@,
                        wf_nodes(ns0),
                        0 <= (i as int) < ns0.len(),
                        i < old(self).nodes@.len(),
                        transform_wf(parent@),
                        w@ == wm,
                        wm == node_world(parent@, ns0[i as int]),
                        node_fits(parent@, ns0[i as int]),
                        transform_wf(wm),
                        num == ns0[i as int].children@.len(),
                        0 <= k <= num,
                        same_structure(ns0, self.nodes@),
                        self.nodes@[i as int].world_transform@ == wm,
                        !okv ==> !subtree_fits(ns0, i as int, parent@) && k as int == num as int,
                        forall|j: int|
                            0 <= j < ns0.len() && j != i as int && !in_any_child_subtree(
                                ns0,
                                i as int,
                                k as int,
                                j,
                            ) ==> self.nodes@[j].world_transform == ns0[j].world_transform,
                        okv ==> forall|k2: int|
                            #![trigger ns0[i as int].children@[k2]]
                            0 <= k2 < k as int ==> subtree_fits(
                                ns0,
                                ns0[i as int].children@[k2] as int,
                                wm,
                            ) && self.nodes@[ns0[i as int].children@[k2] as int].world_transform@
                                == node_world(wm, ns0[ns0[i as int].children@[k2] as int]),
                        okv ==> forall|p: int, k2: int|
                            #![trigger ns0[p].children@[k2]]
                            0 <= p < ns0.len() && in_any_child_subtree(ns0, i as int, k as int, p)
                                && 0 <= k2 < ns0[p].children@.len() ==> self.nodes@[ns0[
                                p
                            ].children@[k2] as int].world_transform@ == node_world(self.nodes@[p].world_transform@, ns0[ns0[p].children@[k2] as int]),
                    decreases num - k,
                {
                    let c = self.nodes[i].children[k];
                    proof {
                        assert(self.nodes@[i as int].children == ns0[i as int].children);
                        assert(c == ns0[i as int].children@[k as int]);
                        assert(i < ns0[i as int].children@[k as int] < ns0.len());
                        assert(self.nodes@.len() == ns0.len());
                        lemma_wf_same_structure(ns0, self.nodes@);
                    }
                    let ghost ns_pre = self.nodes@;
                    let ok_c = self.update_node_transformations(c, &w);
                    proof {
                        let ns_post = self.nodes@;
                        lemma_same_structure_trans(ns0, ns_pre, ns_post);
                        lemma_subtree_fits_same_structure(ns0, ns_pre, c as int, wm);
                        lemma_update_step(
                            ns0,
                            ns_pre,
                            ns_post,
                            i as int,
                            k as int,
                            c as int,
                            wm,
                            ok_c,
                        );
                    }
                    if !ok_c {
                        proof {
                            lemma_children_fit_iff(
                                ns0,
                                i as int,
                                0,
                                node_world(parent@, ns0[i as int]),
                            );
                            assert(!subtree_fits(ns0, ns0[i as int].children@[k as int] as int, wm));
                            assert(!subtree_fits(ns0, i as int, parent@));
                        }
                        okv = false;
                        k = num;
                    } else {
                        k = k + 1;
                    }
                }
                proof {
                    lemma_untouched_outside(ns0, self.nodes@, i as int, num as int);
                    if okv {
                        lemma_children_fit_iff(
                            ns0,
                            i as int,
                            0,
                            node_world(parent@, ns0[i as int]),
                        );
                        assert(subtree_fits(ns0, i as int, parent@));
                        lemma_assemble_edges(ns0, self.nodes@, i as int, wm);
                    }
                }
                okv
            },
        }
    }
}

/// After processing child `k` of node `i`, the loop invariants carry over:
/// earlier subtrees and everything outside the processed children keep
/// their worlds, and the freshly processed subtree satisfies the edge
/// equations.
proof fn lemma_update_step(
    ns0: Seq<SceneNode>,
    ns_pre: Seq<SceneNode>,
    ns_post: Seq<SceneNode>,
    i: int,
    k: int,
    c: int,
    wm: TransformModel,
    ok_c: bool,
)
    requires
        wf_nodes(ns0),
        same_structure(ns0, ns_pre),
        same_structure(ns0, ns_post),
        0 <= i < ns0.len(),
        0 <= k < ns0[i].children@.len(),
        c == ns0[i].children@[k] as int,
        // what the recursive call guarantees, stated over ns_pre:
        forall|j: int|
            0 <= j < ns_pre.len() && !in_subtree(ns_pre, c, j) ==> ns_post[j].world_transform
                == ns_pre[j].world_transform,
        ok_c ==> ns_post[c].world_transform@ == node_world(wm, ns_pre[c]),
        ok_c ==> forall|p: int, k2: int|
            #![trigger ns_pre[p].children@[k2]]
            0 <= p < ns_pre.len() && in_subtree(ns_pre, c, p) && 0 <= k2 < ns_pre[
                p
            ].children@.len() ==> ns_post[ns_pre[p].children@[k2] as int].world_transform@
                == node_world(ns_post[p].world_transform@, ns_pre[ns_pre[p].children@[k2] as int]),
        // the loop invariants before this step, stated over ns_pre:
        ns_pre[i].world_transform@ == wm,
        forall|j: int|
            0 <= j < ns0.len() && j != i && !in_any_child_subtree(ns0, i, k, j) ==> ns_pre[
                j
            ].world_transform == ns0[j].world_transform,
        forall|k2: int|
            #![trigger ns0[i].children@[k2]]
            0 <= k2 < k ==> ns_pre[ns0[i].children@[k2] as int].world_transform@ == node_world(wm, ns0[ns0[i].children@[k2] as int]),
        forall|p: int, k2: int|
            #![trigger ns0[p].children@[k2]]
            0 <= p < ns0.len() && in_any_child_subtree(ns0, i, k, p) && 0 <= k2 < ns0[
                p
            ].children@.len() ==> ns_pre[ns0[p].children@[k2] as int].world_transform@
                == node_world(ns_pre[p].world_transform@, ns0[ns0[p].children@[k2] as int]),
    ensures
        ns_post[i].world_transform@ == wm,
        forall|j: int|
            0 <= j < ns0.len() && j != i && !in_any_child_subtree(ns0, i, k + 1, j) ==> ns_post[
                j
            ].world_transform == ns0[j].world_transform,
        ok_c ==> forall|k2: int|
            #![trigger ns0[i].children@[k2]]
            0 <= k2 < k + 1 ==> ns_post[ns0[i].children@[k2] as int].world_transform@
                == node_world(wm, ns0[ns0[i].children@[k2] as int]),
        ok_c ==> forall|p: int, k2: int|
            #![trigger ns0[p].children@[k2]]
            0 <= p < ns0.len() && in_any_child_subtree(ns0, i, k + 1, p) && 0 <= k2 < ns0[
                p
            ].children@.len() ==> ns_post[ns0[p].children@[k2] as int].world_transform@
                == node_world(ns_post[p].world_transform@, ns0[ns0[p].children@[k2] as int]),
{
    lemma_wf_same_structure(ns0, ns_pre);
    lemma_subtree_lower_bound(ns0, c, c);
    // i is not in the subtree of c, so its world is untouched.
    assert(!in_subtree(ns_pre, c, i)) by {
        lemma_in_subtree_same_structure(ns0, ns_pre, c, i);
        if in_subtree(ns0, c, i) {
            lemma_subtree_lower_bound(ns0, c, i);
        }
    }
    // Anything in an earlier sibling subtree is untouched by this call.
    assert forall|j: int|
        0 <= j < ns0.len() && in_any_child_subtree(ns0, i, k, j) implies ns_post[
        j
    ].world_transform == ns_pre[j].world_transform by {
        let k2 = choose|k2: int|
            #![trigger ns0[i].children@[k2]]
            0 <= k2 < k && in_subtree(ns0, ns0[i].children@[k2] as int, j);
        lemma_sibling_subtrees_disjoint(ns0, i, k2, k, j);
        lemma_in_subtree_same_structure(ns0, ns_pre, c, j);
    }
    // Untouched region shrinks by exactly the subtree of c.
    assert forall|j: int|
        0 <= j < ns0.len() && j != i && !in_any_child_subtree(ns0, i, k + 1, j) implies ns_post[
        j
    ].world_transform == ns0[j].world_transform by {
        assert(!in_any_child_subtree(ns0, i, k, j));
        assert(!in_subtree(ns0, c, j));
        lemma_in_subtree_same_structure(ns0, ns_pre, c, j);
    }
    if ok_c {
        assert(node_local(ns_pre[c]) == node_local(ns0[c]));
        // Processed roots, including the new one.
        assert forall|k2: int|
            #![trigger ns0[i].children@[k2]]
            0 <= k2 < k + 1 implies ns_post[ns0[i].children@[k2] as int].world_transform@
            == node_world(wm, ns0[ns0[i].children@[k2] as int]) by {
            let c2 = ns0[i].children@[k2] as int;
            if k2 < k {
                lemma_subtree_lower_bound(ns0, c2, c2);
                assert(in_any_child_subtree(ns0, i, k, c2));
            }
        }
        // Processed edges, including the new subtree's.
        assert forall|p: int, k2: int|
            #![trigger ns0[p].children@[k2]]
            0 <= p < ns0.len() && in_any_child_subtree(ns0, i, k + 1, p) && 0 <= k2 < ns0[
                p
            ].children@.len() implies ns_post[ns0[p].children@[k2] as int].world_transform@
            == node_world(ns_post[p].world_transform@, ns0[ns0[p].children@[k2] as int]) by {
            let kp = choose|kp: int|
                #![trigger ns0[i].children@[kp]]
                0 <= kp < k + 1 && in_subtree(ns0, ns0[i].children@[kp] as int, p);
            let cp = ns0[i].children@[kp] as int;
            let ch = ns0[p].children@[k2] as int;
            lemma_subtree_lower_bound(ns0, cp, p);
            lemma_subtree_child(ns0, cp, p, k2);
            if kp < k {
                // p and its child lie in an earlier sibling subtree.
                lemma_sibling_subtrees_disjoint(ns0, i, kp, k, p);
                lemma_sibling_subtrees_disjoint(ns0, i, kp, k, ch);
                lemma_in_subtree_same_structure(ns0, ns_pre, c, p);
                lemma_in_subtree_same_structure(ns0, ns_pre, c, ch);
                assert(in_any_child_subtree(ns0, i, k, p));
            } else {
                // p lies in the subtree just processed.
                lemma_in_subtree_same_structure(ns0, ns_pre, c, p);
                assert(in_subtree(ns_pre, c, p));
                assert(ns_pre[p].children == ns0[p].children);
                assert(ns_pre[ns_pre[p].children@[k2] as int] == ns_pre[ch]);
                assert(node_local(ns_pre[ch]) == node_local(ns0[ch]));
            }
        }
    }
}

/// At loop exit, nodes outside the whole subtree of `i` kept their worlds.
proof fn lemma_untouched_outside(ns0: Seq<SceneNode>, ns: Seq<SceneNode>, i: int, k: int)
    requires
        wf_nodes(ns0),
        0 <= i < ns0.len(),
        0 <= k <= ns0[i].children@.len(),
        same_structure(ns0, ns),
        forall|j: int|
            0 <= j < ns0.len() && j != i && !in_any_child_subtree(ns0, i, k, j) ==> ns[
                j
            ].world_transform == ns0[j].world_transform,
    ensures
        forall|j: int|
            0 <= j < ns0.len() && !in_subtree(ns0, i, j) ==> ns[j].world_transform == ns0[
                j
            ].world_transform,
{
    assert forall|j: int|
        0 <= j < ns0.len() && !in_subtree(ns0, i, j) implies ns[j].world_transform == ns0[
        j
    ].world_transform by {
        if in_any_child_subtree(ns0, i, k, j) {
            let k2 = choose|k2: int|
                #![trigger ns0[i].children@[k2]]
                0 <= k2 < k && in_subtree(ns0, ns0[i].children@[k2] as int, j);
            assert(0 <= k2 < ns0[i].children@.len() && in_subtree(
                ns0,
                ns0[i].children@[k2] as int,
                j,
            ));
            assert(in_subtree(ns0, i, j));
        }
    }
}

/// At loop exit, the per-child equations assemble into the edge equations
/// for the whole subtree of `i`.
proof fn lemma_assemble_edges(ns0: Seq<SceneNode>, ns: Seq<SceneNode>, i: int, wm: TransformModel)
    requires
        wf_nodes(ns0),
        0 <= i < ns0.len(),
        same_structure(ns0, ns),
        ns[i].world_transform@ == wm,
        forall|k2: int|
            #![trigger ns0[i].children@[k2]]
            0 <= k2 < ns0[i].children@.len() ==> ns[ns0[i].children@[k2] as int].world_transform@
                == node_world(wm, ns0[ns0[i].children@[k2] as int]),
        forall|p: int, k2: int|
            #![trigger ns0[p].children@[k2]]
            0 <= p < ns0.len() && in_any_child_subtree(ns0, i, ns0[i].children@.len() as int, p)
                && 0 <= k2 < ns0[p].children@.len() ==> ns[ns0[
                p
            ].children@[k2] as int].world_transform@ == node_world(ns[p].world_transform@, ns0[ns0[p].children@[k2] as int]),
    ensures
        forall|p: int, k: int|
            #![trigger ns0[p].children@[k]]
            0 <= p < ns0.len() && in_subtree(ns0, i, p) && 0 <= k < ns0[p].children@.len() ==> ns[
                ns0[p].children@[k] as int
            ].world_transform@ == node_world(ns[p].world_transform@, ns0[ns0[p].children@[k] as int]),
{
    assert forall|p: int, k: int|
        #![trigger ns0[p].children@[k]]
        0 <= p < ns0.len() && in_subtree(ns0, i, p) && 0 <= k < ns0[p].children@.len() implies ns[
        ns0[p].children@[k] as int
    ].world_transform@ == node_world(ns[p].world_transform@, ns0[ns0[p].children@[k] as int]) by {
        if p == i {
            assert(ns[ns0[i].children@[k] as int].world_transform@ == node_world(wm, ns0[ns0[i].children@[k] as int]));
        } else {
            let kp = choose|kp: int|
                #![trigger ns0[i].children@[kp]]
                0 <= kp < ns0[i].children@.len() && in_subtree(
                    ns0,
                    ns0[i].children@[kp] as int,
                    p,
                );
            assert(in_any_child_subtree(ns0, i, ns0[i].children@.len() as int, p));
        }
    }
}



/// One draw operation: bind the node's geometry and draw it with the
/// node's world transform as the model matrix (the camera matrix is a
/// per-frame constant supplied alongside the list).
#[derive(Clone, Copy, PartialEq, Eq, Structural, Debug)]
pub struct DrawCall {
    pub world_transform: Transform,
    pub geometry: GeometryHandle,
}

/// The draw call a node issues for itself: one if it carries geometry,
/// none if it is a pure grouping node.
pub open spec fn own_call(n: SceneNode) -> Seq<DrawCall> {
    match n.geometry {
        Some(h) => seq![DrawCall { world_transform: n.world_transform, geometry: h }],
        None => Seq::empty(),
    }
}

/// The draw calls issued by the subtree of `i`, depth-first, the node's
/// own call (if any) before its children's, children in insertion order.
pub open spec fn draw_calls(ns: Seq<SceneNode>, i: int) -> Seq<DrawCall>
    decreases ns.len() - i, ns[i].children@.len() + 1,
        when wf_nodes(ns) && 0 <= i < ns.len()
{
    own_call(ns[i]) + child_draw_calls(ns, i, 0)
}

/// The concatenated draw calls of the children of `i` from position `k` on.
pub open spec fn child_draw_calls(ns: Seq<SceneNode>, i: int, k: int) -> Seq<DrawCall>
    decreases ns.len() - i, ns[i].children@.len() - k,
        when wf_nodes(ns) && 0 <= i < ns.len() && 0 <= k
{
    if k < ns[i].children@.len() {
        draw_calls(ns, ns[i].children@[k] as int) + child_draw_calls(ns, i, k + 1)
    } else {
        Seq::empty()
    }
}

impl SceneGraph {
    /// Append to `out`, depth-first, one draw call for every
    /// geometry-bearing node in the subtree of `i`, each carrying that
    /// node's cached world transform. Grouping nodes are traversed for
    /// their children but issue nothing.
    pub fn draw_scene(&self, i: usize, out: &mut Vec<DrawCall>)
        requires
            wf_nodes(self.nodes@),
            i < self.nodes@.len(),
        ensures
            final(out)@ == old(out)@ + draw_calls(self.nodes@, i as int),
        decreases self.nodes@.len() - i,
    {
        match self.nodes[i].geometry {
            Some(h) => {
                out.push(DrawCall { world_transform: self.nodes[i].world_transform, geometry: h });
            },
            None => {},
        }
        proof {
            assert(out@ =~= old(out)@ + own_call(self.nodes@[i as int]));
        }
        let ghost out0 = out@;
        let num = self.nodes[i].children.len();
        let mut k: usize = 0;
        while k < num
            invariant
                wf_nodes(self.nodes@),
                i < self.nodes@.len(),
                num == self.nodes@[i as int].children@.len(),
                0 <= k <= num,
                out0 == old(out)@ + own_call(self.nodes@[i as int]),
                out@ + child_draw_calls(self.nodes@, i as int, k as int) == out0
                    + child_draw_calls(self.nodes@, i as int, 0),
            decreases num - k,
        {
            let c = self.nodes[i].children[k];
            proof {
                assert(c == self.nodes@[i as int].children@[k as int]);
                assert(i < self.nodes@[i as int].children@[k as int] < self.nodes@.len());
            }
            let ghost out_pre = out@;
            self.draw_scene(c, out);
            proof {
                assert(out@ + child_draw_calls(self.nodes@, i as int, k as int + 1) =~= out_pre
                    + child_draw_calls(self.nodes@, i as int, k as int));
            }
            k = k + 1;
        }
        proof {
            assert(out@ =~= out@ + child_draw_calls(self.nodes@, i as int, num as int));
            assert(out@ =~= old(out)@ + draw_calls(self.nodes@, i as int));
        }
    }
}

/// If a sequence contains an element, so does any concatenation with it
/// on the left.
proof fn lemma_concat_contains_left(a: Seq<DrawCall>, b: Seq<DrawCall>, x: DrawCall)
    requires
        a.contains(x),
    ensures
        (a + b).contains(x),
{
    let n = choose|n: int| 0 <= n < a.len() && a[n] == x;
    assert((a + b)[n] == x);
}

/// If a sequence contains an element, so does any concatenation with it
/// on the right.
proof fn lemma_concat_contains_right(a: Seq<DrawCall>, b: Seq<DrawCall>, x: DrawCall)
    requires
        b.contains(x),
    ensures
        (a + b).contains(x),
{
    let n = choose|n: int| 0 <= n < b.len() && b[n] == x;
    assert((a + b)[a.len() + n] == x);
}

/// A draw call issued by the subtree of the child at position `m2` is in
/// the concatenated child lists from any position `m <= m2` on.
proof fn lemma_child_calls_contain(ns: Seq<SceneNode>, i: int, m: int, m2: int, x: DrawCall)
    requires
        wf_nodes(ns),
        0 <= i < ns.len(),
        0 <= m <= m2 < ns[i].children@.len(),
        draw_calls(ns, ns[i].children@[m2] as int).contains(x),
    ensures
        child_draw_calls(ns, i, m).contains(x),
    decreases m2 - m,
{
    if m == m2 {
        lemma_concat_contains_left(
            draw_calls(ns, ns[i].children@[m] as int),
            child_draw_calls(ns, i, m + 1),
            x,
        );
    } else {
        lemma_child_calls_contain(ns, i, m + 1, m2, x);
        lemma_concat_contains_right(
            draw_calls(ns, ns[i].children@[m] as int),
            child_draw_calls(ns, i, m + 1),
            x,
        );
    }
}

/// Law (pass-through, part one): a node without geometry issues no draw
/// call of its own; the list of its subtree is exactly the concatenation
/// of its children's lists.
pub proof fn lemma_no_geometry_draws_nothing(ns: Seq<SceneNode>, i: int)
    requires
        wf_nodes(ns),
        0 <= i < ns.len(),
        ns[i].geometry is None,
    ensures
        draw_calls(ns, i) == child_draw_calls(ns, i, 0),
{
    assert(own_call(ns[i]) == Seq::<DrawCall>::empty());
    assert(draw_calls(ns, i) =~= child_draw_calls(ns, i, 0));
}

/// Law (pass-through, part two): every geometry-bearing node of a subtree
/// issues its draw call, with exactly its own world transform, whether or
/// not the nodes above it carry geometry.
pub proof fn lemma_descendant_still_draws(ns: Seq<SceneNode>, i: int, j: int)
    requires
        wf_nodes(ns),
        0 <= i < ns.len(),
        in_subtree(ns, i, j),
        ns[j].geometry is Some,
    ensures
        draw_calls(ns, i).contains(
            DrawCall { world_transform: ns[j].world_transform, geometry: ns[j].geometry->Some_0 },
        ),
    decreases ns.len() - i,
{
    let x = DrawCall { world_transform: ns[j].world_transform, geometry: ns[j].geometry->Some_0 };
    if j == i {
        assert(own_call(ns[i])[0] == x);
        assert(own_call(ns[i]).contains(x));
        lemma_concat_contains_left(own_call(ns[i]), child_draw_calls(ns, i, 0), x);
    } else {
        let k = choose|k: int|
            #![trigger ns[i].children@[k]]
            0 <= k < ns[i].children@.len() && in_subtree(ns, ns[i].children@[k] as int, j);
        lemma_descendant_still_draws(ns, ns[i].children@[k] as int, j);
        lemma_child_calls_contain(ns, i, 0, k, x);
        lemma_concat_contains_right(own_call(ns[i]), child_draw_calls(ns, i, 0), x);
    }
}



/// Law: after a propagation pass fed the identity incoming transform, a
/// root node whose position, rotation and reference point are all zero
/// caches exactly the identity world transform.
pub proof fn lemma_identity_root_world(ns0: Seq<SceneNode>, ns: Seq<SceneNode>, i: int)
    requires
        0 <= i < ns0.len(),
        propagated(ns0, ns, i, identity_model()),
        ns0[i].position@ == zero_vec3_model(),
        ns0[i].rotation@ == zero_rotation_model(),
        ns0[i].reference_point@ == zero_vec3_model(),
    ensures
        ns[i].world_transform@ == identity_model(),
{
    lemma_identity_at_root();
    assert(node_world(identity_model(), ns0[i]) == node_world_model(
        identity_model(),
        zero_vec3_model(),
        zero_rotation_model(),
        zero_vec3_model(),
    ));
}

/// Law: after a propagation pass over the subtree of `i`, a child whose
/// local transform parameters are all zero caches a world transform exactly
/// equal to its parent's, whatever the parent's world transform is.
pub proof fn lemma_child_inherits_parent_world(
    ns0: Seq<SceneNode>,
    ns: Seq<SceneNode>,
    i: int,
    parent: TransformModel,
    p: int,
    k: int,
)
    requires
        wf_nodes(ns0),
        0 <= i < ns0.len(),
        propagated(ns0, ns, i, parent),
        in_subtree(ns0, i, p),
        0 <= k < ns0[p].children@.len(),
        ns0[ns0[p].children@[k] as int].position@ == zero_vec3_model(),
        ns0[ns0[p].children@[k] as int].rotation@ == zero_rotation_model(),
        ns0[ns0[p].children@[k] as int].reference_point@ == zero_vec3_model(),
    ensures
        ns[ns0[p].children@[k] as int].world_transform@ == ns[p].world_transform@,
{
    lemma_subtree_lower_bound(ns0, i, p);
    let c = ns0[p].children@[k] as int;
    assert(ns[c].world_transform@ == node_world(ns[p].world_transform@, ns0[c]));
    assert(node_world(ns[p].world_transform@, ns0[c]) == node_world_model(
        ns[p].world_transform@,
        zero_vec3_model(),
        zero_rotation_model(),
        zero_vec3_model(),
    ));
    lemma_parent_through_identity_child(ns[p].world_transform@);
}



/// Law: after a propagation pass fed the identity incoming transform, the
/// reference point of a node with zero position is an exact fixed point of
/// that node's cached world transform, whatever the rotation: a pivot
/// rotation fixes its own pivot.
pub proof fn lemma_pivot_fixed_world(ns0: Seq<SceneNode>, ns: Seq<SceneNode>, i: int)
    requires
        0 <= i < ns0.len(),
        propagated(ns0, ns, i, identity_model()),
        ns0[i].position@ == zero_vec3_model(),
    ensures
        apply_point_model(ns[i].world_transform@, ns0[i].reference_point@) == ns0[
            i
        ].reference_point@,
{
    assert(node_world(identity_model(), ns0[i]) == node_world_model(
        identity_model(),
        zero_vec3_model(),
        ns0[i].rotation@,
        ns0[i].reference_point@,
    ));
    lemma_pivot_fixed(ns0[i].rotation@, ns0[i].reference_point@);
}

/// Law: under the conditions of [`lemma_pivot_fixed_world`], a point offset
/// from the pivot by `d` maps exactly to the pivot plus the offset carried
/// through the node's rotation block, provided the pivot's coordinates are
/// whole fixed-point units.
pub proof fn lemma_pivot_offset_world(ns0: Seq<SceneNode>, ns: Seq<SceneNode>, i: int, d: Vec3Model)
    requires
        0 <= i < ns0.len(),
        propagated(ns0, ns, i, identity_model()),
        ns0[i].position@ == zero_vec3_model(),
        ns0[i].reference_point@.x % 65536 == 0,
        ns0[i].reference_point@.y % 65536 == 0,
        ns0[i].reference_point@.z % 65536 == 0,
    ensures
        apply_point_model(
            ns[i].world_transform@,
            vec3_add_model(ns0[i].reference_point@, d),
        ) == vec3_add_model(
            ns0[i].reference_point@,
            rotate_vec_model(rotation_model(ns0[i].rotation@), d),
        ),
{
    assert(node_world(identity_model(), ns0[i]) == node_world_model(
        identity_model(),
        zero_vec3_model(),
        ns0[i].rotation@,
        ns0[i].reference_point@,
    ));
    lemma_pivot_offset(ns0[i].rotation@, ns0[i].reference_point@, d);
}


} // verus!
