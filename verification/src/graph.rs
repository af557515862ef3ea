//! The graph store: nodes, edges, identity allocation, and hit-testing.
//!
//! Node identifiers are allocated from a monotone counter and never reused.
//! Every edge joins a directory node to one of its immediate children, and a
//! child always carries an id strictly greater than its parent's, so parent
//! chains are finite and descend toward the root.

use vstd::prelude::*;
use crate::camera::{Camera, POS_LIMIT, WORLD_LIMIT};
use crate::math::{lemma_sq_bound, clamp_spec, clamp64, muldiv64};

verus! {

/// Largest number of live nodes (and of edges) the store will hold; keeps
/// every force sum in the physics step inside an `i64`.
pub const NODE_CAP: usize = 1024;

/// Velocity components stay in `[-MAX_SPEED, MAX_SPEED]` (fixed-point).
pub const MAX_SPEED: i64 = 8_000;

/// Visual radii, fixed-point: the root, other directories, and files.
pub const ROOT_RADIUS: i64 = 28_000;

pub const DIR_RADIUS: i64 = 22_000;

pub const FILE_RADIUS: i64 = 14_000;

/// Largest radius a node can carry.
pub const MAX_RADIUS: i64 = 28_000;

/// The ring children are placed on around their parent, fixed-point.
pub const RING_DIST: i64 = 120_000;

/// Largest magnitude of the random radial jitter on the ring distance.
pub const JITTER_LIMIT: i64 = 20_000;

/// An RGB colour with channels in permille (0 is black, 1000 full).
#[derive(Clone, Copy, PartialEq, Eq, Structural, Debug)]
pub struct NodeColor {
    pub r: u16,
    pub g: u16,
    pub b: u16,
}

impl NodeColor {
    pub open spec fn wf(self) -> bool {
        self.r <= 1000 && self.g <= 1000 && self.b <= 1000
    }
}

/// One node of the graph: identity, display data, and physics state.
pub struct GraphNode {
    pub id: u64,
    pub label: String,
    pub source_key: String,
    pub is_dir: bool,
    pub expanded: bool,
    pub parent_id: Option<u64>,
    pub x: i64,
    pub y: i64,
    pub vx: i64,
    pub vy: i64,
    pub radius: i64,
    pub color: NodeColor,
}

impl GraphNode {
    /// Geometry bounds: position inside the world, speed inside the clamp,
    /// radius positive and bounded.
    pub open spec fn wf(self) -> bool {
        &&& -POS_LIMIT <= self.x <= POS_LIMIT
        &&& -POS_LIMIT <= self.y <= POS_LIMIT
        &&& -MAX_SPEED <= self.vx <= MAX_SPEED
        &&& -MAX_SPEED <= self.vy <= MAX_SPEED
        &&& 0 < self.radius <= MAX_RADIUS
        &&& self.color.wf()
    }
}

/// An edge from a directory node to one of its immediate children.
#[derive(Clone, Copy)]
pub struct GraphEdge {
    pub from_id: u64,
    pub to_id: u64,
}

/// The pointer half of the interaction state machine.
#[derive(Clone, Copy)]
pub enum PointerMode {
    Idle,
    PanningCamera { start_sx: i64, start_sy: i64, start_pan_x: i64, start_pan_y: i64 },
    DraggingNode { node_id: u64, grab_dx: i64, grab_dy: i64 },
}

impl PointerMode {
    pub open spec fn wf(self) -> bool {
        match self {
            PointerMode::Idle => true,
            PointerMode::PanningCamera { start_sx, start_sy, start_pan_x, start_pan_y } => {
                &&& -crate::camera::SCREEN_LIMIT <= start_sx <= crate::camera::SCREEN_LIMIT
                &&& -crate::camera::SCREEN_LIMIT <= start_sy <= crate::camera::SCREEN_LIMIT
                &&& -POS_LIMIT <= start_pan_x <= POS_LIMIT
                &&& -POS_LIMIT <= start_pan_y <= POS_LIMIT
            },
            PointerMode::DraggingNode { node_id, grab_dx, grab_dy } => {
                &&& -WORLD_LIMIT - POS_LIMIT <= grab_dx <= WORLD_LIMIT + POS_LIMIT
                &&& -WORLD_LIMIT - POS_LIMIT <= grab_dy <= WORLD_LIMIT + POS_LIMIT
            },
        }
    }
}

/// Does some node in `s` carry id `id`?
pub open spec fn has_id(s: Seq<GraphNode>, id: u64) -> bool {
    exists|i: int| 0 <= i < s.len() && s[i].id == id
}

/// The index of the node carrying `id` (unique under `ids_unique`).
pub open spec fn id_index(s: Seq<GraphNode>, id: u64) -> int {
    choose|i: int| 0 <= i < s.len() && s[i].id == id
}

/// The node carrying `id`.
pub open spec fn node_by_id(s: Seq<GraphNode>, id: u64) -> GraphNode {
    s[id_index(s, id)]
}

/// No two nodes share an id.
pub open spec fn ids_unique(s: Seq<GraphNode>) -> bool {
    forall|i: int, j: int|
        0 <= i < j < s.len() ==> (#[trigger] s[i].id) != (#[trigger] s[j].id)
}

/// Parent links point at live nodes with strictly smaller ids, so every
/// parent chain strictly descends.
pub open spec fn parents_ok(s: Seq<GraphNode>) -> bool {
    forall|i: int|
        0 <= i < s.len() && (#[trigger] s[i].parent_id) is Some ==> {
            &&& s[i].parent_id->0 < s[i].id
            &&& has_id(s, s[i].parent_id->0)
        }
}

/// Is `id` a strict descendant of `root` (its parent chain passes through
/// `root`)? Chains are walked along ids, which strictly decrease.
pub open spec fn is_desc(s: Seq<GraphNode>, root: u64, id: u64) -> bool
    decreases id,
{
    has_id(s, id) && {
        let n = node_by_id(s, id);
        match n.parent_id {
            Some(p) => p == root || (p < id && is_desc(s, root, p)),
            None => false,
        }
    }
}

/// `n` with its `expanded` flag cleared.
pub open spec fn clear_expanded(n: GraphNode) -> GraphNode {
    GraphNode { expanded: false, ..n }
}

/// The nodes of `s` that survive collapsing `id` against the node set
/// `full`: descendants of `id` are dropped, `id` itself loses its
/// `expanded` flag, everything else is untouched. Order is preserved.
pub open spec fn surviving_nodes(s: Seq<GraphNode>, full: Seq<GraphNode>, id: u64) -> Seq<
    GraphNode,
>
    decreases s.len(),
{
    if s.len() == 0 {
        Seq::empty()
    } else {
        let rest = surviving_nodes(s.drop_last(), full, id);
        let n = s.last();
        if is_desc(full, id, n.id) {
            rest
        } else if n.id == id {
            rest.push(clear_expanded(n))
        } else {
            rest.push(n)
        }
    }
}

/// The edges that survive collapsing `id`: an edge is dropped exactly when
/// one of its endpoints is a descendant of `id`.
pub open spec fn surviving_edges(es: Seq<GraphEdge>, full: Seq<GraphNode>, id: u64) -> Seq<
    GraphEdge,
>
    decreases es.len(),
{
    if es.len() == 0 {
        Seq::empty()
    } else {
        let rest = surviving_edges(es.drop_last(), full, id);
        let e = es.last();
        if is_desc(full, id, e.from_id) || is_desc(full, id, e.to_id) {
            rest
        } else {
            rest.push(e)
        }
    }
}

/// What survival does to the node set: the result is no longer, keeps ids
/// unique, holds exactly the non-descendants (with only the `expanded` flag
/// of `id` changed), and invents nothing.
#[verifier::rlimit(100)]
pub proof fn lemma_surviving_nodes_props(s: Seq<GraphNode>, full: Seq<GraphNode>, id: u64)
    requires
        ids_unique(s),
    ensures
        surviving_nodes(s, full, id).len() <= s.len(),
        ids_unique(surviving_nodes(s, full, id)),
        forall|k: int|
            0 <= k < surviving_nodes(s, full, id).len() ==> exists|i: int|
                0 <= i < s.len() && s[i].id == (#[trigger] surviving_nodes(s, full, id)[k]).id
                    && !is_desc(full, id, s[i].id) && surviving_nodes(s, full, id)[k] == (
                if s[i].id == id {
                    clear_expanded(s[i])
                } else {
                    s[i]
                }),
        forall|i: int|
            0 <= i < s.len() && !is_desc(full, id, (#[trigger] s[i]).id) ==> has_id(
                surviving_nodes(s, full, id),
                s[i].id,
            ) && node_by_id(surviving_nodes(s, full, id), s[i].id) == (if s[i].id == id {
                clear_expanded(s[i])
            } else {
                s[i]
            }),
    decreases s.len(),
{
    let out = surviving_nodes(s, full, id);
    if s.len() == 0 {
    } else {
        let t = s.drop_last();
        assert(ids_unique(t)) by {
            assert(forall|i: int| 0 <= i < t.len() ==> t[i] == s[i]);
        }
        lemma_surviving_nodes_props(t, full, id);
        let rest = surviving_nodes(t, full, id);
        let n = s.last();
        assert(n == s[s.len() - 1]);
        // The last id is fresh in `t`, hence in `rest`.
        assert(!has_id(rest, n.id)) by {
            if has_id(rest, n.id) {
                let k = choose|k: int| 0 <= k < rest.len() && rest[k].id == n.id;
                assert(exists|i: int|
                    0 <= i < t.len() && t[i].id == rest[k].id && !is_desc(full, id, t[i].id)
                        && rest[k] == (if t[i].id == id {
                        clear_expanded(t[i])
                    } else {
                        t[i]
                    }));
                let i = choose|i: int|
                    0 <= i < t.len() && t[i].id == rest[k].id && !is_desc(full, id, t[i].id)
                        && rest[k] == (if t[i].id == id {
                        clear_expanded(t[i])
                    } else {
                        t[i]
                    });
                assert(t[i] == s[i]);
                assert(s[i].id != s[s.len() - 1].id);
            }
        }
        if is_desc(full, id, n.id) {
            assert(out == rest);
            assert forall|i: int|
                0 <= i < s.len() && !is_desc(full, id, (#[trigger] s[i]).id) implies has_id(
                out,
                s[i].id,
            ) && node_by_id(out, s[i].id) == (if s[i].id == id {
                clear_expanded(s[i])
            } else {
                s[i]
            }) by {
                assert(i < t.len() && t[i] == s[i]);
            }
        } else {
            let nn = if n.id == id {
                clear_expanded(n)
            } else {
                n
            };
            assert(out == rest.push(nn));
            assert(ids_unique(out)) by {
                assert forall|i: int, j: int| 0 <= i < j < out.len() implies (
                #[trigger] out[i].id) != (#[trigger] out[j].id) by {
                    if j < rest.len() {
                        assert(out[i] == rest[i] && out[j] == rest[j]);
                    } else {
                        assert(out[j] == nn && out[i] == rest[i]);
                        assert(has_id(rest, rest[i].id));
                    }
                }
            }
            assert forall|k: int| 0 <= k < out.len() implies exists|i: int|
                0 <= i < s.len() && s[i].id == (#[trigger] out[k]).id && !is_desc(
                full,
                id,
                s[i].id,
            ) && out[k] == (if s[i].id == id {
                clear_expanded(s[i])
            } else {
                s[i]
            }) by {
                if k < rest.len() {
                    assert(out[k] == rest[k]);
                    let i = choose|i: int|
                        0 <= i < t.len() && t[i].id == rest[k].id && !is_desc(
                            full,
                            id,
                            t[i].id,
                        ) && rest[k] == (if t[i].id == id {
                            clear_expanded(t[i])
                        } else {
                            t[i]
                        });
                    assert(t[i] == s[i]);
                } else {
                    assert(out[k] == nn);
                    assert(s[s.len() - 1].id == nn.id && !is_desc(full, id, s[s.len() - 1].id)
                        && nn == (if s[s.len() - 1].id == id {
                        clear_expanded(s[s.len() - 1])
                    } else {
                        s[s.len() - 1]
                    }));
                }
            }
            assert forall|i: int|
                0 <= i < s.len() && !is_desc(full, id, (#[trigger] s[i]).id) implies has_id(
                out,
                s[i].id,
            ) && node_by_id(out, s[i].id) == (if s[i].id == id {
                clear_expanded(s[i])
            } else {
                s[i]
            }) by {
                if i < s.len() - 1 {
                    assert(t[i] == s[i]);
                    assert(has_id(rest, s[i].id));
                    let k = id_index(rest, s[i].id);
                    assert(0 <= k < rest.len() && rest[k].id == s[i].id);
                    assert(out[k] == rest[k]);
                    lemma_id_index_unique(out, k, s[i].id);
                    lemma_id_index_unique(rest, k, s[i].id);
                } else {
                    assert(out[out.len() - 1] == nn);
                    lemma_id_index_unique(out, out.len() - 1, s[i].id);
                }
            }
        }
    }
}

/// Does some edge in `es` point at child `t`?
pub open spec fn has_to(es: Seq<GraphEdge>, t: u64) -> bool {
    exists|k: int| 0 <= k < es.len() && es[k].to_id == t
}

/// No two edges share a child endpoint.
pub open spec fn edge_tos_unique(es: Seq<GraphEdge>) -> bool {
    forall|k: int, l: int|
        0 <= k < l < es.len() ==> (#[trigger] es[k].to_id) != (#[trigger] es[l].to_id)
}

/// What survival does to the edge set: no edge is invented, every kept edge
/// is kept verbatim, and distinct child endpoints stay distinct.
pub proof fn lemma_surviving_edges_props(es: Seq<GraphEdge>, full: Seq<GraphNode>, id: u64)
    ensures
        surviving_edges(es, full, id).len() <= es.len(),
        forall|k: int|
            0 <= k < surviving_edges(es, full, id).len() ==> exists|l: int|
                0 <= l < es.len() && (#[trigger] surviving_edges(es, full, id)[k]) == es[l]
                    && !is_desc(full, id, es[l].from_id) && !is_desc(full, id, es[l].to_id),
        forall|l: int|
            0 <= l < es.len() && !is_desc(full, id, (#[trigger] es[l]).from_id) && !is_desc(
                full,
                id,
                es[l].to_id,
            ) ==> exists|k: int|
                0 <= k < surviving_edges(es, full, id).len() && surviving_edges(es, full, id)[k]
                    == es[l],
    decreases es.len(),
{
    let out = surviving_edges(es, full, id);
    if es.len() == 0 {
    } else {
        let t = es.drop_last();
        lemma_surviving_edges_props(t, full, id);
        let rest = surviving_edges(t, full, id);
        let e = es.last();
        assert(e == es[es.len() - 1]);
        assert(forall|i: int| 0 <= i < t.len() ==> t[i] == es[i]);
        if is_desc(full, id, e.from_id) || is_desc(full, id, e.to_id) {
            assert(out == rest);
        } else {
            assert(out == rest.push(e));
        }
        assert forall|l: int|
            0 <= l < es.len() && !is_desc(full, id, (#[trigger] es[l]).from_id) && !is_desc(
                full,
                id,
                es[l].to_id,
            ) implies exists|k: int| 0 <= k < out.len() && out[k] == es[l] by {
            if l < t.len() {
                assert(t[l] == es[l]);
                let k = choose|k: int| 0 <= k < rest.len() && rest[k] == t[l];
                assert(out[k] == es[l]);
            } else {
                assert(es[l] == e);
                assert(out[out.len() - 1] == e);
            }
        }
    }
}

/// Distinct child endpoints stay distinct through survival, and no child
/// endpoint appears that was not there before.
pub proof fn lemma_surviving_edges_unique(es: Seq<GraphEdge>, full: Seq<GraphNode>, id: u64)
    requires
        edge_tos_unique(es),
    ensures
        edge_tos_unique(surviving_edges(es, full, id)),
        forall|t: u64| has_to(surviving_edges(es, full, id), t) ==> has_to(es, t),
    decreases es.len(),
{
    let out = surviving_edges(es, full, id);
    if es.len() == 0 {
    } else {
        let t = es.drop_last();
        assert(edge_tos_unique(t)) by {
            assert(forall|i: int| 0 <= i < t.len() ==> t[i] == es[i]);
        }
        lemma_surviving_edges_unique(t, full, id);
        let rest = surviving_edges(t, full, id);
        let e = es.last();
        assert(e == es[es.len() - 1]);
        assert(forall|i: int| 0 <= i < t.len() ==> t[i] == es[i]);
        if is_desc(full, id, e.from_id) || is_desc(full, id, e.to_id) {
            assert(out == rest);
        } else {
            assert(out == rest.push(e));
        }
        assert forall|x: u64| has_to(out, x) implies has_to(es, x) by {
            let k = choose|k: int| 0 <= k < out.len() && out[k].to_id == x;
            if k < rest.len() {
                assert(out[k] == rest[k]);
                assert(rest[k].to_id == x);
                assert(has_to(rest, x));
                assert(has_to(t, x));
                let i = choose|i: int| 0 <= i < t.len() && t[i].to_id == x;
                assert(es[i].to_id == x);
            } else {
                assert(out[k] == e);
                assert(es[es.len() - 1].to_id == x);
            }
        }
        if !(is_desc(full, id, e.from_id) || is_desc(full, id, e.to_id)) {
            assert(!has_to(rest, e.to_id)) by {
                if has_to(rest, e.to_id) {
                    assert(has_to(t, e.to_id));
                    let i = choose|i: int| 0 <= i < t.len() && t[i].to_id == e.to_id;
                    assert(es[i].to_id != es[es.len() - 1].to_id);
                }
            }
            assert forall|k: int, l: int| 0 <= k < l < out.len() implies (
            #[trigger] out[k].to_id) != (#[trigger] out[l].to_id) by {
                if l < rest.len() {
                    assert(out[k] == rest[k] && out[l] == rest[l]);
                } else {
                    assert(out[l] == e && out[k] == rest[k]);
                    assert(has_to(rest, rest[k].to_id));
                }
            }
        }
    }
}
/// The id and parent link of every node, in order: all that descendant
/// walks need to read.
pub open spec fn links_of(s: Seq<GraphNode>) -> Seq<(u64, Option<u64>)> {
    Seq::new(s.len(), |i: int| (s[i].id, s[i].parent_id))
}

/// A surviving node's parent also survives: were the parent a descendant of
/// the collapsed node (or the collapsed node itself), the child would be a
/// descendant too.
pub proof fn lemma_nondesc_parent(full: Seq<GraphNode>, id: u64, i: int)
    requires
        ids_unique(full),
        parents_ok(full),
        0 <= i < full.len(),
        !is_desc(full, id, full[i].id),
        full[i].parent_id is Some,
    ensures
        !is_desc(full, id, full[i].parent_id->0),
        full[i].parent_id->0 != id,
{
    lemma_id_index_unique(full, i, full[i].id);
    assert(has_id(full, full[i].id));
}

/// Under unique ids, looking a node up by id finds exactly the index that
/// carries it.
pub proof fn lemma_id_index_unique(s: Seq<GraphNode>, i: int, id: u64)
    requires
        ids_unique(s),
        0 <= i < s.len(),
        s[i].id == id,
    ensures
        has_id(s, id),
        id_index(s, id) == i,
        node_by_id(s, id) == s[i],
{
    assert(has_id(s, id));
    let j = id_index(s, id);
    assert(0 <= j < s.len() && s[j].id == id);
    if i < j {
        assert(s[i].id != s[j].id);
    } else if j < i {
        assert(s[j].id != s[i].id);
    }
}

/// `n` with its `expanded` flag set.
pub open spec fn mark_expanded(n: GraphNode) -> GraphNode {
    GraphNode { expanded: true, ..n }
}

/// Is `id` a live, unexpanded directory — the one situation `expand_node`
/// acts on?
pub open spec fn expandable(s: Seq<GraphNode>, id: u64) -> bool {
    has_id(s, id) && node_by_id(s, id).is_dir && !node_by_id(s, id).expanded
}

/// What a freshly created child node looks like: a fresh id, the entry's
/// name and key, zero velocity, an edge-ready parent link, and a position
/// on a ring of radius `RING_DIST` (give or take the random radial jitter)
/// around the parent, in the angular slot of its index.
pub open spec fn child_ok(
    c: GraphNode,
    parent: GraphNode,
    base_id: u64,
    pid: u64,
    es: Seq<crate::entry::Entry>,
    k: int,
    m: int,
) -> bool {
    &&& c.id == base_id + k
    &&& c.label@ == es[k].name@
    &&& c.source_key@ == es[k].path@
    &&& c.is_dir == es[k].is_dir
    &&& !c.expanded
    &&& c.parent_id == Some(pid)
    &&& c.vx == 0 && c.vy == 0
    &&& c.radius == if es[k].is_dir {
        DIR_RADIUS
    } else {
        FILE_RADIUS
    }
    &&& c.color == if es[k].is_dir {
        crate::color::dir_color_spec()
    } else {
        crate::color::file_color_spec(es[k].extension@)
    }
    &&& exists|d: int|
        {
            &&& RING_DIST - JITTER_LIMIT <= d <= RING_DIST + JITTER_LIMIT
            &&& c.x == clamp_spec(
                parent.x + #[trigger] crate::math::muldiv(
                    crate::layout::cosine_milli(crate::layout::slot_degrees(k, m)),
                    d,
                    1000,
                ),
                -POS_LIMIT as int,
                POS_LIMIT as int,
            )
            &&& c.y == clamp_spec(
                parent.y + crate::math::muldiv(
                    crate::layout::sine_milli(crate::layout::slot_degrees(k, m)),
                    d,
                    1000,
                ),
                -POS_LIMIT as int,
                POS_LIMIT as int,
            )
        }
}

/// Expanding preserves the engine invariant: fresh ids are unique, children
/// point at their parent, and each new child carries exactly one new edge.
#[verifier::rlimit(100)]
pub proof fn lemma_expand_wf(
    pre: GraphState,
    post: GraphState,
    id: u64,
    es: Seq<crate::entry::Entry>,
)
    requires
        pre.wf(),
        expandable(pre.nodes@, id),
        pre.nodes@.len() + es.len() <= NODE_CAP,
        pre.edges@.len() + es.len() <= NODE_CAP,
        pre.next_id + es.len() <= u64::MAX,
        post.next_id == pre.next_id + es.len(),
        post.nodes@.len() == pre.nodes@.len() + es.len(),
        forall|q: int|
            0 <= q < pre.nodes@.len() && q != id_index(pre.nodes@, id)
                ==> post.nodes@[q] == pre.nodes@[q],
        post.nodes@[id_index(pre.nodes@, id)] == mark_expanded(
            pre.nodes@[id_index(pre.nodes@, id)],
        ),
        forall|k: int|
            0 <= k < es.len() ==> child_ok(
                #[trigger] post.nodes@[pre.nodes@.len() + k],
                pre.nodes@[id_index(pre.nodes@, id)],
                pre.next_id,
                id,
                es,
                k,
                es.len() as int,
            ),
        post.edges@.len() == pre.edges@.len() + es.len(),
        forall|q: int| 0 <= q < pre.edges@.len() ==> post.edges@[q] == pre.edges@[q],
        forall|k: int|
            0 <= k < es.len() ==> (#[trigger] post.edges@[pre.edges@.len() + k]) == (GraphEdge {
                from_id: id,
                to_id: (pre.next_id + k) as u64,
            }),
        post.camera == pre.camera,
        post.pointer == pre.pointer,
    ensures
        post.wf(),
{
    let s0 = pre.nodes@;
    let s1 = post.nodes@;
    let n0 = s0.len() as int;
    let m = es.len() as int;
    let pidx = id_index(s0, id);
    assert(0 <= pidx < n0 && s0[pidx].id == id);
    // ids below pre.next_id for the old half, fresh above for the children.
    assert forall|q: int| 0 <= q < s1.len() implies (#[trigger] s1[q]).wf() && s1[q].id
        < post.next_id by {
        if q < n0 {
            assert(s0[q].wf());
        } else {
            let kk = q - n0;
            assert(child_ok(s1[n0 + kk], s0[pidx], pre.next_id, id, es, kk, m));
            assert(s1[q] == s1[n0 + kk]);
            assert(crate::color::file_color_spec(es[q - n0].extension@).wf());
            assert(crate::color::dir_color_spec().wf());
            let d = choose|d: int|
                {
                    &&& RING_DIST - JITTER_LIMIT <= d <= RING_DIST + JITTER_LIMIT
                    &&& s1[q].x == clamp_spec(
                        s0[pidx].x + #[trigger] crate::math::muldiv(
                            crate::layout::cosine_milli(
                                crate::layout::slot_degrees(q - n0, m),
                            ),
                            d,
                            1000,
                        ),
                        -POS_LIMIT as int,
                        POS_LIMIT as int,
                    )
                    &&& s1[q].y == clamp_spec(
                        s0[pidx].y + crate::math::muldiv(
                            crate::layout::sine_milli(crate::layout::slot_degrees(q - n0, m)),
                            d,
                            1000,
                        ),
                        -POS_LIMIT as int,
                        POS_LIMIT as int,
                    )
                };
        }
    }
    assert(ids_unique(s1)) by {
        assert forall|i: int, j: int| 0 <= i < j < s1.len() implies (#[trigger] s1[i].id) != (
        #[trigger] s1[j].id) by {
            if i < n0 && j < n0 {
                assert(s1[i].id == s0[i].id && s1[j].id == s0[j].id);
            } else if i < n0 {
                assert(s1[i].id == s0[i].id && s0[i].id < pre.next_id);
                let kj = j - n0;
                assert(child_ok(s1[n0 + kj], s0[pidx], pre.next_id, id, es, kj, m));
                assert(s1[j].id == pre.next_id + kj);
            } else {
                let ki = i - n0;
                let kj = j - n0;
                assert(child_ok(s1[n0 + ki], s0[pidx], pre.next_id, id, es, ki, m));
                assert(child_ok(s1[n0 + kj], s0[pidx], pre.next_id, id, es, kj, m));
                assert(s1[i].id == pre.next_id + ki);
                assert(s1[j].id == pre.next_id + kj);
            }
        }
    }
    assert(parents_ok(s1)) by {
        assert forall|i: int|
            0 <= i < s1.len() && (#[trigger] s1[i].parent_id) is Some implies {
            &&& s1[i].parent_id->0 < s1[i].id
            &&& has_id(s1, s1[i].parent_id->0)
        } by {
            if i < n0 {
                assert(s1[i].parent_id == s0[i].parent_id);
                assert(s1[i].id == s0[i].id);
                let p = s0[i].parent_id->0;
                let ip = id_index(s0, p);
                assert(0 <= ip < n0 && s0[ip].id == p);
                assert(s1[ip].id == p);
            } else {
                let ki = i - n0;
                assert(child_ok(s1[n0 + ki], s0[pidx], pre.next_id, id, es, ki, m));
                assert(s1[i] == s1[n0 + ki]);
                assert(s1[i].parent_id->0 == id);
                assert(id < pre.next_id);
                assert(s1[pidx].id == id);
            }
        }
    }
    let e0 = pre.edges@;
    let e1 = post.edges@;
    let m0 = e0.len() as int;
    assert forall|k: int| 0 <= k < e1.len() implies {
        &&& has_id(s1, (#[trigger] e1[k]).to_id)
        &&& node_by_id(s1, e1[k].to_id).parent_id == Some(e1[k].from_id)
    } by {
        if k < m0 {
            assert(e1[k] == e0[k]);
            let t = e0[k].to_id;
            let it = id_index(s0, t);
            assert(0 <= it < n0 && s0[it].id == t);
            assert(node_by_id(s0, t) == s0[it]);
            assert(s1[it].id == t && s1[it].parent_id == s0[it].parent_id);
            lemma_id_index_unique(s1, it, t);
        } else {
            let kk = k - m0;
            assert(e1[m0 + kk] == (GraphEdge { from_id: id, to_id: (pre.next_id + kk) as u64 }));
            assert(e1[k] == e1[m0 + kk]);
            let t = e1[k].to_id;
            assert(t == pre.next_id + kk);
            assert(child_ok(s1[n0 + kk], s0[pidx], pre.next_id, id, es, kk, m));
            assert(s1[n0 + kk].id == t);
            lemma_id_index_unique(s1, n0 + kk, t);
        }
    }
    assert forall|k: int, l: int| 0 <= k < l < e1.len() implies (#[trigger] e1[k].to_id) != (
    #[trigger] e1[l].to_id) by {
        if k < m0 && l < m0 {
            assert(e1[k] == e0[k] && e1[l] == e0[l]);
        } else if k < m0 {
            assert(e1[k] == e0[k]);
            let t = e0[k].to_id;
            let it = id_index(s0, t);
            assert(0 <= it < n0 && s0[it].id == t);
            assert(t < pre.next_id);
            let ll = l - m0;
            assert(e1[m0 + ll] == (GraphEdge { from_id: id, to_id: (pre.next_id + ll) as u64 }));
            assert(e1[l].to_id == pre.next_id + ll);
        } else {
            let kk = k - m0;
            let ll = l - m0;
            assert(e1[m0 + kk] == (GraphEdge { from_id: id, to_id: (pre.next_id + kk) as u64 }));
            assert(e1[m0 + ll] == (GraphEdge { from_id: id, to_id: (pre.next_id + ll) as u64 }));
            assert(e1[k].to_id == pre.next_id + kk);
            assert(e1[l].to_id == pre.next_id + ll);
        }
    }
    assert forall|i: int|
        0 <= i < s1.len() && (#[trigger] s1[i].parent_id) is Some implies exists|k: int|
        0 <= k < e1.len() && (#[trigger] e1[k]).from_id == s1[i].parent_id->0 && e1[k].to_id
            == s1[i].id by {
        if i < n0 {
            assert(s1[i].parent_id == s0[i].parent_id && s1[i].id == s0[i].id);
            let k = choose|k: int|
                0 <= k < e0.len() && (#[trigger] e0[k]).from_id == s0[i].parent_id->0
                    && e0[k].to_id == s0[i].id;
            assert(e1[k] == e0[k]);
        } else {
            let ki = i - n0;
            assert(child_ok(s1[n0 + ki], s0[pidx], pre.next_id, id, es, ki, m));
            assert(s1[i] == s1[n0 + ki]);
            let k = m0 + ki;
            assert(e1[m0 + ki] == (GraphEdge {
                from_id: id,
                to_id: (pre.next_id + ki) as u64,
            }));
            assert(e1[k].from_id == id && e1[k].to_id == s1[i].id);
        }
    }
}


/// The whole engine: graph store, camera, and interaction state.
pub struct GraphState {
    pub nodes: Vec<GraphNode>,
    pub edges: Vec<GraphEdge>,
    pub next_id: u64,
    pub camera: Camera,
    pub pointer: PointerMode,
    pub hovered: Option<u64>,
    pub physics_enabled: bool,
}

impl GraphState {
    pub open spec fn nodes_wf(self) -> bool {
        &&& self.nodes@.len() <= NODE_CAP
        &&& forall|i: int| 0 <= i < self.nodes@.len() ==> (#[trigger] self.nodes@[i]).wf()
        &&& forall|i: int|
            0 <= i < self.nodes@.len() ==> (#[trigger] self.nodes@[i].id) < self.next_id
        &&& ids_unique(self.nodes@)
        &&& parents_ok(self.nodes@)
    }

    pub open spec fn edges_wf(self) -> bool {
        &&& self.edges@.len() <= NODE_CAP
        &&& forall|k: int|
            0 <= k < self.edges@.len() ==> {
                &&& has_id(self.nodes@, (#[trigger] self.edges@[k]).to_id)
                &&& node_by_id(self.nodes@, self.edges@[k].to_id).parent_id
                    == Some(self.edges@[k].from_id)
            }
        &&& forall|k: int, l: int|
            0 <= k < l < self.edges@.len() ==> (#[trigger] self.edges@[k].to_id) != (
            #[trigger] self.edges@[l].to_id)
        &&& forall|i: int|
            0 <= i < self.nodes@.len() && (#[trigger] self.nodes@[i].parent_id) is Some
                ==> exists|k: int|
                0 <= k < self.edges@.len() && (#[trigger] self.edges@[k]).from_id
                    == self.nodes@[i].parent_id->0 && self.edges@[k].to_id == self.nodes@[i].id
    }

    /// The engine invariant: every mutation below preserves it.
    pub open spec fn wf(self) -> bool {
        &&& self.nodes_wf()
        &&& self.edges_wf()
        &&& self.camera.wf()
        &&& self.pointer.wf()
    }

    /// A fresh engine: empty store, centred camera, idle pointer.
    pub fn new() -> (s: GraphState)
        ensures
            s.wf(),
            s.nodes@.len() == 0,
            s.edges@.len() == 0,
            s.next_id == 0,
            s.camera.zoom == crate::camera::MILLI,
            s.camera.pan_x == 0,
            s.camera.pan_y == 0,
            s.pointer is Idle,
            s.hovered is None,
            s.physics_enabled,
    {
        GraphState {
            nodes: Vec::new(),
            edges: Vec::new(),
            next_id: 0,
            camera: Camera::new(),
            pointer: PointerMode::Idle,
            hovered: None,
            physics_enabled: true,
        }
    }

    /// Create the root node for `key` at the world origin and return its id.
    pub fn add_root(&mut self, key: String) -> (id: u64)
        requires
            old(self).wf(),
            old(self).nodes@.len() < NODE_CAP,
            old(self).next_id < u64::MAX,
        ensures
            final(self).wf(),
            id == old(self).next_id,
            final(self).next_id == old(self).next_id + 1,
            final(self).nodes@.len() == old(self).nodes@.len() + 1,
            final(self).nodes@ == old(self).nodes@.push(final(self).nodes@.last()),
            ({
                let n = final(self).nodes@.last();
                &&& n.id == old(self).next_id
                &&& n.label@ == crate::strutil::label_spec(key@)
                &&& n.source_key == key
                &&& n.is_dir
                &&& !n.expanded
                &&& n.parent_id is None
                &&& n.x == 0 && n.y == 0 && n.vx == 0 && n.vy == 0
                &&& n.radius == ROOT_RADIUS
            }),
            final(self).edges@ == old(self).edges@,
            final(self).camera == old(self).camera,
            final(self).pointer == old(self).pointer,
            final(self).hovered == old(self).hovered,
            final(self).physics_enabled == old(self).physics_enabled,
    {
        let id = self.next_id;
        self.next_id = id + 1;
        let label = crate::strutil::file_label(key.as_str());
        let node = GraphNode {
            id,
            label,
            source_key: key,
            is_dir: true,
            expanded: false,
            parent_id: None,
            x: 0,
            y: 0,
            vx: 0,
            vy: 0,
            radius: ROOT_RADIUS,
            color: crate::color::dir_color(),
        };
        self.nodes.push(node);
        proof {
            let s0 = old(self).nodes@;
            let s1 = self.nodes@;
            assert forall|k: int| 0 <= k < self.edges@.len() implies {
                &&& has_id(s1, (#[trigger] self.edges@[k]).to_id)
                &&& node_by_id(s1, self.edges@[k].to_id).parent_id == Some(
                    self.edges@[k].from_id,
                )
            } by {
                let t = self.edges@[k].to_id;
                let i0 = id_index(s0, t);
                assert(0 <= i0 < s0.len() && s0[i0].id == t);
                assert(s1[i0] == s0[i0]);
                lemma_id_index_unique(s1, i0, t);
                lemma_id_index_unique(s0, i0, t);
            }
            assert forall|i: int|
                0 <= i < s1.len() && (#[trigger] s1[i].parent_id) is Some implies {
                &&& s1[i].parent_id->0 < s1[i].id
                &&& has_id(s1, s1[i].parent_id->0)
            } by {
                if i < s0.len() {
                    assert(s1[i] == s0[i]);
                    let p = s0[i].parent_id->0;
                    let ip = id_index(s0, p);
                    assert(0 <= ip < s0.len() && s0[ip].id == p);
                    assert(s1[ip] == s0[ip]);
                }
            }
        }
        id
    }

    /// Find the vector index of the node with id `id`.
    pub fn find_index(&self, id: u64) -> (r: Option<usize>)
        ensures
            match r {
                Some(i) => i < self.nodes@.len() && self.nodes@[i as int].id == id,
                None => !has_id(self.nodes@, id),
            },
    {
        find_node(&self.nodes, id)
    }

    /// Collapse the node carrying `id`: remove its entire descendant
    /// subtree and every edge touching a removed node, and clear its
    /// `expanded` flag; the node itself stays. A stale id, or a node that
    /// is not expanded, leaves the engine untouched.
    #[verifier::rlimit(100)]
    pub fn collapse_node(&mut self, id: u64)
        requires
            old(self).wf(),
        ensures
            final(self).wf(),
            final(self).next_id == old(self).next_id,
            final(self).camera == old(self).camera,
            final(self).pointer == old(self).pointer,
            final(self).hovered == old(self).hovered,
            final(self).physics_enabled == old(self).physics_enabled,
            has_id(old(self).nodes@, id) && node_by_id(old(self).nodes@, id).expanded ==> {
                &&& final(self).nodes@ == surviving_nodes(
                    old(self).nodes@,
                    old(self).nodes@,
                    id,
                )
                &&& final(self).edges@ == surviving_edges(
                    old(self).edges@,
                    old(self).nodes@,
                    id,
                )
            },
            !(has_id(old(self).nodes@, id) && node_by_id(old(self).nodes@, id).expanded)
                ==> *final(self) == *old(self),
    {
        let idx = match self.find_index(id) {
            Some(i) => i,
            None => {
                return ;
            },
        };
        proof {
            lemma_id_index_unique(self.nodes@, idx as int, id);
        }
        if !self.nodes[idx].expanded {
            return ;
        }
        let links = collect_links(&self.nodes);
        let ghost full = self.nodes@;
        let ghost es0 = self.edges@;
        let mut i: usize = 0;
        let ghost mut j: int = 0;
        proof {
            assert(full.take(0) =~= Seq::<GraphNode>::empty());
            assert(full.skip(0) =~= full);
            assert(self.nodes@ =~= surviving_nodes(full.take(0), full, id) + full.skip(0));
        }
        while i < self.nodes.len()
            invariant
                0 <= j <= full.len(),
                i == surviving_nodes(full.take(j), full, id).len(),
                self.nodes@ == surviving_nodes(full.take(j), full, id) + full.skip(j),
                links@ == links_of(full),
                ids_unique(full),
                parents_ok(full),
                self.edges@ == old(self).edges@,
                self.next_id == old(self).next_id,
                self.camera == old(self).camera,
                self.pointer == old(self).pointer,
                self.hovered == old(self).hovered,
                self.physics_enabled == old(self).physics_enabled,
            decreases full.len() - j,
        {
            proof {
                assert(self.nodes@[i as int] == full.skip(j)[0]);
                assert(full.skip(j)[0] == full[j]);
                assert(full.take(j + 1).drop_last() =~= full.take(j));
                assert(full.take(j + 1).last() == full[j]);
            }
            let nd_id = self.nodes[i].id;
            let ghost s_pre = surviving_nodes(full.take(j), full, id);
            if is_descendant(&links, Ghost(full), id, nd_id) {
                let _ = self.nodes.remove(i);
                proof {
                    assert(surviving_nodes(full.take(j + 1), full, id) == s_pre);
                    assert(self.nodes@ =~= s_pre + full.skip(j + 1));
                    j = j + 1;
                }
            } else if nd_id == id {
                let nd = self.nodes.remove(i);
                let cleared = GraphNode { expanded: false, ..nd };
                self.nodes.insert(i, cleared);
                proof {
                    assert(cleared == clear_expanded(full[j]));
                    assert(surviving_nodes(full.take(j + 1), full, id) == s_pre.push(
                        clear_expanded(full[j]),
                    ));
                    assert(self.nodes@ =~= s_pre.push(clear_expanded(full[j])) + full.skip(
                        j + 1,
                    ));
                    j = j + 1;
                }
                i += 1;
            } else {
                proof {
                    assert(surviving_nodes(full.take(j + 1), full, id) == s_pre.push(full[j]));
                    assert(self.nodes@ =~= s_pre.push(full[j]) + full.skip(j + 1));
                    j = j + 1;
                }
                i += 1;
            }
        }
        proof {
            assert(full.take(j) =~= full);
            assert(full.skip(j) =~= Seq::<GraphNode>::empty());
            assert(self.nodes@ =~= surviving_nodes(full, full, id));
        }
        let mut k: usize = 0;
        let ghost mut l: int = 0;
        proof {
            assert(es0.take(0) =~= Seq::<GraphEdge>::empty());
            assert(es0.skip(0) =~= es0);
            assert(self.edges@ =~= surviving_edges(es0.take(0), full, id) + es0.skip(0));
        }
        while k < self.edges.len()
            invariant
                0 <= l <= es0.len(),
                k == surviving_edges(es0.take(l), full, id).len(),
                self.edges@ == surviving_edges(es0.take(l), full, id) + es0.skip(l),
                links@ == links_of(full),
                ids_unique(full),
                parents_ok(full),
                self.nodes@ == surviving_nodes(full, full, id),
                self.next_id == old(self).next_id,
                self.camera == old(self).camera,
                self.pointer == old(self).pointer,
                self.hovered == old(self).hovered,
                self.physics_enabled == old(self).physics_enabled,
            decreases es0.len() - l,
        {
            proof {
                assert(self.edges@[k as int] == es0.skip(l)[0]);
                assert(es0.skip(l)[0] == es0[l]);
                assert(es0.take(l + 1).drop_last() =~= es0.take(l));
                assert(es0.take(l + 1).last() == es0[l]);
            }
            let e_from = self.edges[k].from_id;
            let e_to = self.edges[k].to_id;
            let ghost e_pre = surviving_edges(es0.take(l), full, id);
            let drop_from = is_descendant(&links, Ghost(full), id, e_from);
            let drop_to = is_descendant(&links, Ghost(full), id, e_to);
            if drop_from || drop_to {
                let _ = self.edges.remove(k);
                proof {
                    assert(surviving_edges(es0.take(l + 1), full, id) == e_pre);
                    assert(self.edges@ =~= e_pre + es0.skip(l + 1));
                    l = l + 1;
                }
            } else {
                proof {
                    assert(surviving_edges(es0.take(l + 1), full, id) == e_pre.push(es0[l]));
                    assert(self.edges@ =~= e_pre.push(es0[l]) + es0.skip(l + 1));
                    l = l + 1;
                }
                k += 1;
            }
        }
        proof {
            assert(es0.take(l) =~= es0);
            assert(es0.skip(l) =~= Seq::<GraphEdge>::empty());
            assert(self.edges@ =~= surviving_edges(es0, full, id));
            lemma_collapse_assemble(*old(self), *self, id);
        }
    }


    /// Expand the directory node `id` with the children the caller listed
    /// for its key: one fresh node and one parent-to-child edge per entry,
    /// children placed in evenly divided angular slots on a jittered ring
    /// around the parent's current position, and the parent marked
    /// expanded. A stale id, a file, or an already-expanded node leaves the
    /// engine untouched. The whole batch is applied before returning.
    ///
    /// An empty listing still marks the node expanded: a directory that
    /// could not be read degrades to "no children", and the next click
    /// collapses rather than retries — deliberate, to avoid repeating a
    /// failing read on every click.
    #[verifier::rlimit(100)]
    pub fn expand_node(&mut self, id: u64, entries: &Vec<crate::entry::Entry>)
        requires
            old(self).wf(),
            old(self).nodes@.len() + entries@.len() <= NODE_CAP,
            old(self).edges@.len() + entries@.len() <= NODE_CAP,
            old(self).next_id + entries@.len() <= u64::MAX,
        ensures
            final(self).wf(),
            final(self).camera == old(self).camera,
            final(self).pointer == old(self).pointer,
            final(self).hovered == old(self).hovered,
            final(self).physics_enabled == old(self).physics_enabled,
            !expandable(old(self).nodes@, id) ==> *final(self) == *old(self),
            expandable(old(self).nodes@, id) ==> {
                let s0 = old(self).nodes@;
                let n0 = s0.len() as int;
                let m = entries@.len() as int;
                let pidx = id_index(s0, id);
                &&& final(self).next_id == old(self).next_id + m
                &&& final(self).nodes@.len() == n0 + m
                &&& forall|q: int|
                    0 <= q < n0 && q != pidx ==> final(self).nodes@[q] == s0[q]
                &&& final(self).nodes@[pidx] == mark_expanded(s0[pidx])
                &&& forall|k: int|
                    0 <= k < m ==> child_ok(
                        #[trigger] final(self).nodes@[n0 + k],
                        s0[pidx],
                        old(self).next_id,
                        id,
                        entries@,
                        k,
                        m,
                    )
                &&& final(self).edges@.len() == old(self).edges@.len() + m
                &&& forall|q: int|
                    0 <= q < old(self).edges@.len() ==> final(self).edges@[q] == old(
                        self,
                    ).edges@[q]
                &&& forall|k: int|
                    0 <= k < m ==> (#[trigger] final(self).edges@[old(self).edges@.len() + k])
                        == (GraphEdge { from_id: id, to_id: (old(self).next_id + k) as u64 })
            },
    {
        let pidx = match self.find_index(id) {
            Some(i) => i,
            None => {
                return ;
            },
        };
        proof {
            lemma_id_index_unique(self.nodes@, pidx as int, id);
        }
        if !self.nodes[pidx].is_dir || self.nodes[pidx].expanded {
            return ;
        }
        let px = self.nodes[pidx].x;
        let py = self.nodes[pidx].y;
        let ghost s0 = self.nodes@;
        let nd = self.nodes.remove(pidx);
        let marked = GraphNode { expanded: true, ..nd };
        self.nodes.insert(pidx, marked);
        proof {
            assert(self.nodes@ =~= s0.update(pidx as int, marked));
        }
        let m = entries.len();
        let base_id = self.next_id;
        let base_len = self.nodes.len();
        let ebase_len = self.edges.len();
        let ghost sbase = self.nodes@;
        let ghost ebase = self.edges@;
        let mut k: usize = 0;
        while k < m
            invariant
                k <= m,
                m == entries@.len(),
                m <= NODE_CAP,
                0 < m ==> m <= 0x1000_0000,
                pidx < base_len,
                base_len == sbase.len(),
                base_len + m <= NODE_CAP,
                ebase_len == ebase.len(),
                ebase_len + m <= NODE_CAP,
                base_id + m <= u64::MAX,
                -POS_LIMIT <= px <= POS_LIMIT,
                -POS_LIMIT <= py <= POS_LIMIT,
                sbase[pidx as int].x == px,
                sbase[pidx as int].y == py,
                self.next_id == base_id + k,
                self.nodes@.len() == base_len + k,
                forall|q: int| 0 <= q < base_len ==> self.nodes@[q] == sbase[q],
                forall|q: int|
                    0 <= q < k ==> child_ok(
                        #[trigger] self.nodes@[base_len + q],
                        sbase[pidx as int],
                        base_id,
                        id,
                        entries@,
                        q,
                        m as int,
                    ),
                self.edges@.len() == ebase_len + k,
                forall|q: int| 0 <= q < ebase_len ==> self.edges@[q] == ebase[q],
                forall|q: int|
                    0 <= q < k ==> (#[trigger] self.edges@[ebase_len + q]) == (GraphEdge {
                        from_id: id,
                        to_id: (base_id + q) as u64,
                    }),
                self.camera == old(self).camera,
                self.pointer == old(self).pointer,
                self.hovered == old(self).hovered,
                self.physics_enabled == old(self).physics_enabled,
            decreases m - k,
        {
            let child_id = self.next_id;
            self.next_id = child_id + 1;
            let deg = crate::layout::slot_degrees_of(k, m);
            let cosv = crate::layout::cosine_milli_of(deg);
            let sinv = crate::layout::sine_milli_of(deg);
            let jit = crate::trusted::radial_jitter();
            let dist = RING_DIST + jit;
            proof {
                assert(-140_000_000 <= cosv as int * dist <= 140_000_000) by (nonlinear_arith)
                    requires
                        -1000 <= cosv <= 1000,
                        0 < dist <= 140_000,
                ;
                assert(-140_000_000 <= sinv as int * dist <= 140_000_000) by (nonlinear_arith)
                    requires
                        -1000 <= sinv <= 1000,
                        0 < dist <= 140_000,
                ;
                crate::math::lemma_tdiv_le(cosv as int * dist, 1000, 140_000);
                crate::math::lemma_tdiv_le(sinv as int * dist, 1000, 140_000);
            }
            let ox = muldiv64(cosv, dist, 1000);
            let oy = muldiv64(sinv, dist, 1000);
            let cx = clamp64(px + ox, -POS_LIMIT, POS_LIMIT);
            let cy = clamp64(py + oy, -POS_LIMIT, POS_LIMIT);
            let is_dir = entries[k].is_dir;
            let radius = if is_dir {
                DIR_RADIUS
            } else {
                FILE_RADIUS
            };
            let color = if is_dir {
                crate::color::dir_color()
            } else {
                crate::color::file_color_for_ext(entries[k].extension.as_str())
            };
            let child = GraphNode {
                id: child_id,
                label: entries[k].name.clone(),
                source_key: entries[k].path.clone(),
                is_dir,
                expanded: false,
                parent_id: Some(id),
                x: cx,
                y: cy,
                vx: 0,
                vy: 0,
                radius,
                color,
            };
            self.nodes.push(child);
            self.edges.push(GraphEdge { from_id: id, to_id: child_id });
            proof {
                let d = dist as int;
                assert(RING_DIST - JITTER_LIMIT <= d <= RING_DIST + JITTER_LIMIT);
                assert(child_ok(
                    self.nodes@[base_len + k as int],
                    sbase[pidx as int],
                    base_id,
                    id,
                    entries@,
                    k as int,
                    m as int,
                ));
            }
            k += 1;
        }
        proof {
            assert(id_index(s0, id) == pidx as int);
            assert forall|q: int|
                0 <= q < s0.len() && q != pidx as int implies self.nodes@[q] == s0[q] by {
                assert(self.nodes@[q] == sbase[q]);
            }
            assert(self.nodes@[pidx as int] == mark_expanded(s0[pidx as int]));
            lemma_expand_wf(*old(self), *self, id, entries@);
        }
    }

    /// Does the point `(wx, wy)` fall inside node `n`?
    pub open spec fn hit(n: GraphNode, wx: int, wy: int) -> bool {
        (wx - n.x) * (wx - n.x) + (wy - n.y) * (wy - n.y) <= n.radius * n.radius
    }

    /// The hit-test winner: the most recently inserted node containing the
    /// point, if any.
    pub open spec fn last_hit(s: Seq<GraphNode>, wx: int, wy: int) -> Option<u64>
        decreases s.len(),
    {
        if s.len() == 0 {
            None
        } else if Self::hit(s.last(), wx, wy) {
            Some(s.last().id)
        } else {
            Self::last_hit(s.drop_last(), wx, wy)
        }
    }

    /// Hit-test in reverse insertion order, so that of overlapping nodes the
    /// most recently added one wins; `None` when the point is outside every
    /// node's radius.
    pub fn node_at(&self, wx: i64, wy: i64) -> (r: Option<u64>)
        requires
            self.wf(),
            -WORLD_LIMIT - POS_LIMIT <= wx <= WORLD_LIMIT + POS_LIMIT,
            -WORLD_LIMIT - POS_LIMIT <= wy <= WORLD_LIMIT + POS_LIMIT,
        ensures
            r == Self::last_hit(self.nodes@, wx as int, wy as int),
    {
        let mut i = self.nodes.len();
        proof {
            assert(self.nodes@.take(i as int) =~= self.nodes@);
        }
        while i > 0
            invariant
                i <= self.nodes@.len(),
                self.wf(),
                -WORLD_LIMIT - POS_LIMIT <= wx <= WORLD_LIMIT + POS_LIMIT,
                -WORLD_LIMIT - POS_LIMIT <= wy <= WORLD_LIMIT + POS_LIMIT,
                Self::last_hit(self.nodes@, wx as int, wy as int) == Self::last_hit(
                    self.nodes@.take(i as int),
                    wx as int,
                    wy as int,
                ),
            decreases i,
        {
            i -= 1;
            let n = &self.nodes[i];
            let dx = wx - n.x;
            let dy = wy - n.y;
            proof {
                lemma_sq_bound(dx as int, 2_120_000_000);
                lemma_sq_bound(dy as int, 2_120_000_000);
                lemma_sq_bound(n.radius as int, MAX_RADIUS as int);
                assert(dx * dx + dy * dy <= 2 * 2_120_000_000 * 2_120_000_000);
                assert(self.nodes@.take(i + 1).last() == self.nodes@[i as int]);
                assert(self.nodes@.take(i + 1).drop_last() =~= self.nodes@.take(i as int));
            }
            if dx * dx + dy * dy <= n.radius * n.radius {
                return Some(n.id);
            }
        }
        None
    }
}

/// Find the index of the node carrying `id` in a node vector.
pub fn find_node(nodes: &Vec<GraphNode>, id: u64) -> (r: Option<usize>)
    ensures
        match r {
            Some(i) => i < nodes@.len() && nodes@[i as int].id == id,
            None => !has_id(nodes@, id),
        },
{
    let n = nodes.len();
    let mut i: usize = 0;
    while i < n
        invariant
            i <= n,
            n == nodes@.len(),
            forall|k: int| 0 <= k < i ==> (#[trigger] nodes@[k].id) != id,
        decreases n - i,
    {
        if nodes[i].id == id {
            return Some(i);
        }
        i += 1;
    }
    None
}

/// Record every node's id and parent link.
fn collect_links(nodes: &Vec<GraphNode>) -> (links: Vec<(u64, Option<u64>)>)
    ensures
        links@ == links_of(nodes@),
{
    let n = nodes.len();
    let mut links: Vec<(u64, Option<u64>)> = Vec::new();
    let mut i: usize = 0;
    while i < n
        invariant
            i <= n,
            n == nodes@.len(),
            links@.len() == i,
            forall|k: int|
                0 <= k < i ==> links@[k] == (#[trigger] nodes@[k].id, nodes@[k].parent_id),
        decreases n - i,
    {
        links.push((nodes[i].id, nodes[i].parent_id));
        i += 1;
    }
    proof {
        assert(links@ =~= links_of(nodes@));
    }
    links
}

/// Find the entry for `id` in the recorded links.
fn find_link(links: &Vec<(u64, Option<u64>)>, id: u64) -> (r: Option<usize>)
    ensures
        match r {
            Some(k) => k < links@.len() && links@[k as int].0 == id,
            None => forall|k: int| 0 <= k < links@.len() ==> (#[trigger] links@[k]).0 != id,
        },
{
    let n = links.len();
    let mut i: usize = 0;
    while i < n
        invariant
            i <= n,
            n == links@.len(),
            forall|k: int| 0 <= k < i ==> (#[trigger] links@[k]).0 != id,
        decreases n - i,
    {
        if links[i].0 == id {
            return Some(i);
        }
        i += 1;
    }
    None
}

/// Walk the parent chain of `id` upward and report whether it passes
/// through `root`. Ids strictly decrease along the chain, so the walk ends.
fn is_descendant(
    links: &Vec<(u64, Option<u64>)>,
    Ghost(full): Ghost<Seq<GraphNode>>,
    root: u64,
    id: u64,
) -> (r: bool)
    requires
        links@ == links_of(full),
        ids_unique(full),
        parents_ok(full),
    ensures
        r == is_desc(full, root, id),
{
    let mut cur = id;
    loop
        invariant
            links@ == links_of(full),
            ids_unique(full),
            parents_ok(full),
            is_desc(full, root, id) == is_desc(full, root, cur),
        decreases cur,
    {
        match find_link(links, cur) {
            None => {
                proof {
                    if has_id(full, cur) {
                        let w = choose|w: int| 0 <= w < full.len() && full[w].id == cur;
                        assert(links@[w].0 == cur);
                    }
                }
                return false;
            },
            Some(k) => {
                proof {
                    assert(links@[k as int] == (full[k as int].id, full[k as int].parent_id));
                    lemma_id_index_unique(full, k as int, cur);
                }
                let parent = links[k].1;
                match parent {
                    None => {
                        return false;
                    },
                    Some(p) => {
                        if p == root {
                            return true;
                        }
                        proof {
                            assert(full[k as int].parent_id is Some);
                            assert(p < cur);
                        }
                        cur = p;
                    },
                }
            },
        }
    }
}

/// Collapsing keeps the node half of the invariant: survivors keep their
/// geometry and id bounds, ids stay unique, and parents of survivors
/// survive.
#[verifier::rlimit(100)]
pub proof fn lemma_collapse_nodes_wf(full: Seq<GraphNode>, id: u64, cap: u64)
    requires
        ids_unique(full),
        parents_ok(full),
        forall|i: int| 0 <= i < full.len() ==> (#[trigger] full[i]).wf(),
        forall|i: int| 0 <= i < full.len() ==> (#[trigger] full[i].id) < cap,
    ensures
        surviving_nodes(full, full, id).len() <= full.len(),
        ids_unique(surviving_nodes(full, full, id)),
        forall|k: int|
            0 <= k < surviving_nodes(full, full, id).len() ==> (#[trigger] surviving_nodes(
                full,
                full,
                id,
            )[k]).wf(),
        forall|k: int|
            0 <= k < surviving_nodes(full, full, id).len() ==> (#[trigger] surviving_nodes(
                full,
                full,
                id,
            )[k].id) < cap,
        parents_ok(surviving_nodes(full, full, id)),
{
    let sn = surviving_nodes(full, full, id);
    lemma_surviving_nodes_props(full, full, id);
    assert forall|k: int| 0 <= k < sn.len() implies (#[trigger] sn[k]).wf() && sn[k].id
        < cap by {
        let i = choose|i: int|
            0 <= i < full.len() && full[i].id == sn[k].id && !is_desc(full, id, full[i].id)
                && sn[k] == (if full[i].id == id {
                clear_expanded(full[i])
            } else {
                full[i]
            });
        assert(full[i].wf());
    }
    assert forall|k: int|
        0 <= k < sn.len() && (#[trigger] sn[k].parent_id) is Some implies {
        &&& sn[k].parent_id->0 < sn[k].id
        &&& has_id(sn, sn[k].parent_id->0)
    } by {
        let i = choose|i: int|
            0 <= i < full.len() && full[i].id == sn[k].id && !is_desc(full, id, full[i].id)
                && sn[k] == (if full[i].id == id {
                clear_expanded(full[i])
            } else {
                full[i]
            });
        assert(full[i].parent_id == sn[k].parent_id);
        lemma_nondesc_parent(full, id, i);
        let p = full[i].parent_id->0;
        let ip = id_index(full, p);
        assert(0 <= ip < full.len() && full[ip].id == p);
        assert(!is_desc(full, id, full[ip].id));
        assert(has_id(sn, p));
    }
}

/// Collapsing keeps surviving edges live: the child endpoint of every
/// surviving edge survives, with its parent link intact.
#[verifier::rlimit(100)]
pub proof fn lemma_collapse_edges_live(full: Seq<GraphNode>, es0: Seq<GraphEdge>, id: u64)
    requires
        ids_unique(full),
        parents_ok(full),
        forall|k: int|
            0 <= k < es0.len() ==> {
                &&& has_id(full, (#[trigger] es0[k]).to_id)
                &&& node_by_id(full, es0[k].to_id).parent_id == Some(es0[k].from_id)
            },
    ensures
        forall|k: int|
            0 <= k < surviving_edges(es0, full, id).len() ==> {
                &&& has_id(
                    surviving_nodes(full, full, id),
                    (#[trigger] surviving_edges(es0, full, id)[k]).to_id,
                )
                &&& node_by_id(
                    surviving_nodes(full, full, id),
                    surviving_edges(es0, full, id)[k].to_id,
                ).parent_id == Some(surviving_edges(es0, full, id)[k].from_id)
            },
{
    let sn = surviving_nodes(full, full, id);
    let se = surviving_edges(es0, full, id);
    lemma_surviving_nodes_props(full, full, id);
    lemma_surviving_edges_props(es0, full, id);
    assert forall|k: int| 0 <= k < se.len() implies {
        &&& has_id(sn, (#[trigger] se[k]).to_id)
        &&& node_by_id(sn, se[k].to_id).parent_id == Some(se[k].from_id)
    } by {
        let l = choose|l: int|
            0 <= l < es0.len() && se[k] == es0[l] && !is_desc(full, id, es0[l].from_id)
                && !is_desc(full, id, es0[l].to_id);
        let t = es0[l].to_id;
        let it = id_index(full, t);
        assert(0 <= it < full.len() && full[it].id == t);
        assert(node_by_id(full, t) == full[it]);
        assert(!is_desc(full, id, full[it].id));
        assert(has_id(sn, t));
        assert(node_by_id(sn, t) == (if full[it].id == id {
            clear_expanded(full[it])
        } else {
            full[it]
        }));
        assert(node_by_id(sn, t).parent_id == full[it].parent_id);
    }
}

/// Every surviving child keeps its one incoming edge through a collapse.
#[verifier::rlimit(100)]
pub proof fn lemma_collapse_edges_incoming(full: Seq<GraphNode>, es0: Seq<GraphEdge>, id: u64)
    requires
        ids_unique(full),
        parents_ok(full),
        forall|i: int|
            0 <= i < full.len() && (#[trigger] full[i].parent_id) is Some ==> exists|k: int|
                0 <= k < es0.len() && (#[trigger] es0[k]).from_id == full[i].parent_id->0
                    && es0[k].to_id == full[i].id,
    ensures
        forall|k: int|
            0 <= k < surviving_nodes(full, full, id).len() && (#[trigger] surviving_nodes(
                full,
                full,
                id,
            )[k].parent_id) is Some ==> exists|m: int|
                0 <= m < surviving_edges(es0, full, id).len() && (#[trigger] surviving_edges(
                    es0,
                    full,
                    id,
                )[m]).from_id == surviving_nodes(full, full, id)[k].parent_id->0
                    && surviving_edges(es0, full, id)[m].to_id == surviving_nodes(
                    full,
                    full,
                    id,
                )[k].id,
{
    let sn = surviving_nodes(full, full, id);
    let se = surviving_edges(es0, full, id);
    lemma_surviving_nodes_props(full, full, id);
    lemma_surviving_edges_props(es0, full, id);
    assert forall|k: int|
        0 <= k < sn.len() && (#[trigger] sn[k].parent_id) is Some implies exists|m: int|
        0 <= m < se.len() && (#[trigger] se[m]).from_id == sn[k].parent_id->0 && se[m].to_id
            == sn[k].id by {
        let i = choose|i: int|
            0 <= i < full.len() && full[i].id == sn[k].id && !is_desc(full, id, full[i].id)
                && sn[k] == (if full[i].id == id {
                clear_expanded(full[i])
            } else {
                full[i]
            });
        assert(full[i].parent_id == sn[k].parent_id);
        lemma_nondesc_parent(full, id, i);
        let l = choose|l: int|
            0 <= l < es0.len() && (#[trigger] es0[l]).from_id == full[i].parent_id->0
                && es0[l].to_id == full[i].id;
        assert(!is_desc(full, id, es0[l].from_id));
        assert(!is_desc(full, id, es0[l].to_id));
        let m = choose|m: int| 0 <= m < se.len() && se[m] == es0[l];
        assert(se[m].from_id == sn[k].parent_id->0 && se[m].to_id == sn[k].id);
    }
}

/// Collapsing preserves the engine invariant, assembled from the node and
/// edge halves.
pub proof fn lemma_collapse_assemble(pre: GraphState, post: GraphState, id: u64)
    requires
        pre.wf(),
        post.nodes@ == surviving_nodes(pre.nodes@, pre.nodes@, id),
        post.edges@ == surviving_edges(pre.edges@, pre.nodes@, id),
        post.next_id == pre.next_id,
        post.camera == pre.camera,
        post.pointer == pre.pointer,
    ensures
        post.wf(),
{
    let full = pre.nodes@;
    let es0 = pre.edges@;
    lemma_collapse_nodes_wf(full, id, pre.next_id);
    lemma_surviving_edges_props(es0, full, id);
    lemma_surviving_edges_unique(es0, full, id);
    lemma_collapse_edges_live(full, es0, id);
    lemma_collapse_edges_incoming(full, es0, id);
}

/// A hit-test winner is a live id.
pub proof fn lemma_last_hit_has(s: Seq<GraphNode>, wx: int, wy: int)
    ensures
        match GraphState::last_hit(s, wx, wy) {
            Some(id) => has_id(s, id),
            None => true,
        },
    decreases s.len(),
{
    if s.len() == 0 {
    } else if GraphState::hit(s.last(), wx, wy) {
        assert(s[s.len() - 1].id == s.last().id);
    } else {
        lemma_last_hit_has(s.drop_last(), wx, wy);
        let t = s.drop_last();
        match GraphState::last_hit(t, wx, wy) {
            Some(id) => {
                let i = choose|i: int| 0 <= i < t.len() && t[i].id == id;
                assert(s[i].id == id);
            },
            None => {},
        }
    }
}

/// The hit test misses exactly when the point is outside every node.
pub proof fn lemma_last_hit_none(s: Seq<GraphNode>, wx: int, wy: int)
    ensures
        GraphState::last_hit(s, wx, wy) is None <==> forall|i: int|
            0 <= i < s.len() ==> !GraphState::hit(#[trigger] s[i], wx, wy),
    decreases s.len(),
{
    if s.len() == 0 {
    } else {
        lemma_last_hit_none(s.drop_last(), wx, wy);
        let t = s.drop_last();
        assert(forall|i: int| 0 <= i < t.len() ==> t[i] == s[i]);
        assert(s.last() == s[s.len() - 1]);
    }
}

/// When the hit test answers, it answers with the most recently inserted
/// node containing the point: everything added later misses.
pub proof fn lemma_last_hit_most_recent(s: Seq<GraphNode>, wx: int, wy: int)
    ensures
        match GraphState::last_hit(s, wx, wy) {
            Some(id) => exists|i: int|
                0 <= i < s.len() && (#[trigger] s[i]).id == id && GraphState::hit(s[i], wx, wy)
                    && (forall|j: int| i < j < s.len() ==> !GraphState::hit(
                    #[trigger] s[j],
                    wx,
                    wy,
                )),
            None => true,
        },
    decreases s.len(),
{
    if s.len() == 0 {
    } else if GraphState::hit(s.last(), wx, wy) {
        let i = s.len() - 1;
        assert(s[i].id == s.last().id && GraphState::hit(s[i], wx, wy) && (forall|j: int|
            i < j < s.len() ==> !GraphState::hit(#[trigger] s[j], wx, wy)));
    } else {
        lemma_last_hit_most_recent(s.drop_last(), wx, wy);
        let t = s.drop_last();
        assert(forall|k: int| 0 <= k < t.len() ==> t[k] == s[k]);
        match GraphState::last_hit(t, wx, wy) {
            Some(id) => {
                let i = choose|i: int|
                    0 <= i < t.len() && (#[trigger] t[i]).id == id && GraphState::hit(
                        t[i],
                        wx,
                        wy,
                    ) && (forall|j: int| i < j < t.len() ==> !GraphState::hit(
                        #[trigger] t[j],
                        wx,
                        wy,
                    ));
                assert(s[i].id == id && GraphState::hit(s[i], wx, wy));
                assert(s.last() == s[s.len() - 1]);
                assert(forall|j: int| i < j < s.len() ==> !GraphState::hit(
                    #[trigger] s[j],
                    wx,
                    wy,
                ));
            },
            None => {},
        }
    }
}

/// Every edge of a well-formed engine references two live node ids, and
/// every live id is below the allocation counter, so an id, once freed, is
/// never issued again: mutations only move the counter up.
pub proof fn lemma_edges_reference_live_nodes(s: GraphState)
    requires
        s.wf(),
    ensures
        forall|k: int|
            0 <= k < s.edges@.len() ==> has_id(s.nodes@, (#[trigger] s.edges@[k]).from_id)
                && has_id(s.nodes@, s.edges@[k].to_id),
        forall|i: int|
            0 <= i < s.nodes@.len() ==> (#[trigger] s.nodes@[i].id) < s.next_id,
{
    assert forall|k: int|
        0 <= k < s.edges@.len() implies has_id(s.nodes@, (#[trigger] s.edges@[k]).from_id)
        && has_id(s.nodes@, s.edges@[k].to_id) by {
        let t = s.edges@[k].to_id;
        let it = id_index(s.nodes@, t);
        assert(0 <= it < s.nodes@.len() && s.nodes@[it].id == t);
        assert(s.nodes@[it].parent_id == Some(s.edges@[k].from_id));
        let ip = id_index(s.nodes@, s.nodes@[it].parent_id->0);
        assert(0 <= ip < s.nodes@.len());
    }
}

/// Collapsing `id` removes exactly the strict descendants of `id`: every
/// non-descendant stays, in order, with at most its `expanded` flag changed
/// (and that only on `id` itself); every descendant is gone; nothing new
/// appears.
pub proof fn lemma_collapse_exact(s: Seq<GraphNode>, id: u64)
    requires
        ids_unique(s),
    ensures
        forall|i: int|
            0 <= i < s.len() && !is_desc(s, id, (#[trigger] s[i]).id) ==> has_id(
                surviving_nodes(s, s, id),
                s[i].id,
            ) && node_by_id(surviving_nodes(s, s, id), s[i].id) == (if s[i].id == id {
                clear_expanded(s[i])
            } else {
                s[i]
            }),
        forall|k: int|
            0 <= k < surviving_nodes(s, s, id).len() ==> !is_desc(
                s,
                id,
                (#[trigger] surviving_nodes(s, s, id)[k]).id,
            ) && has_id(s, surviving_nodes(s, s, id)[k].id),
{
    lemma_surviving_nodes_props(s, s, id);
    let out = surviving_nodes(s, s, id);
    assert forall|k: int| 0 <= k < out.len() implies !is_desc(s, id, (#[trigger] out[k]).id)
        && has_id(s, out[k].id) by {
        let i = choose|i: int|
            0 <= i < s.len() && s[i].id == out[k].id && !is_desc(s, id, s[i].id) && out[k] == (
            if s[i].id == id {
                clear_expanded(s[i])
            } else {
                s[i]
            });
    }
}

} // verus!