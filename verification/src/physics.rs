//! The force-directed physics step.
//!
//! Each tick every node receives three forces — pairwise repulsion, spring
//! attraction along edges, and a weak centering pull — and then integrates:
//! damped velocity, a speed clamp, and a position update confined to the
//! world. A node held by a drag gesture is pinned: its velocity is zeroed
//! and its position left to the pointer.
//!
//! All arithmetic is fixed-point; the functions below are specified by the
//! spec functions they compute exactly.

use vstd::prelude::*;
use crate::camera::POS_LIMIT;
use crate::graph::{
    GraphEdge, GraphNode, GraphState, PointerMode, has_id, ids_unique, id_index, node_by_id,
    find_node, lemma_id_index_unique, MAX_SPEED, NODE_CAP,
};
use crate::math::{
    clamp_spec, clamp64, isqrt, lemma_isqrt_component, lemma_sq_bound, lemma_sq_le,
    lemma_tdiv_le, max2, muldiv, muldiv64, sqrt_floor, tdiv,
};

verus! {

/// Repulsion strength: force between two nodes one unit apart.
pub const REPULSION: i64 = 8_000_000;

/// Spring constant, as the ratio `SPRING_NUM / SPRING_DEN` (0.02).
pub const SPRING_NUM: i64 = 2;

pub const SPRING_DEN: i64 = 100;

/// The separation a spring relaxes to.
pub const REST_LENGTH: i64 = 120_000;

/// Damping factor, as the ratio `DAMP_NUM / DAMP_DEN` (0.85, strictly
/// below one so the system loses energy).
pub const DAMP_NUM: i64 = 85;

pub const DAMP_DEN: i64 = 100;

/// Centering strength: each node is pulled by `-position / CENTER_DEN`.
pub const CENTER_DEN: i64 = 1000;

/// Largest magnitude a spring force can reach inside the world.
pub const SPRING_FORCE_MAX: i64 = 600_000;

/// Bound on the total force on one node.
pub const FORCE_LIMIT: i64 = 9_000_000_000;

/// The distance used by the force model: the floor square root of the
/// squared separation, floored at one world unit to avoid a singularity
/// when nodes coincide.
pub open spec fn dist_of(dx: int, dy: int) -> int {
    max2(sqrt_floor(dx * dx + dy * dy), 1000)
}

/// The x component of the repulsion that `b` exerts on `a`:
/// magnitude `REPULSION / du^2` along the line between them.
pub open spec fn rep_fx(a: GraphNode, b: GraphNode) -> int {
    let dx = a.x - b.x;
    let dy = a.y - b.y;
    let dist = dist_of(dx, dy);
    let du = dist / 1000;
    let f = (REPULSION as int) / (du * du);
    tdiv(dx * f, dist)
}

pub open spec fn rep_fy(a: GraphNode, b: GraphNode) -> int {
    let dx = a.x - b.x;
    let dy = a.y - b.y;
    let dist = dist_of(dx, dy);
    let du = dist / 1000;
    let f = (REPULSION as int) / (du * du);
    tdiv(dy * f, dist)
}

/// Sum of the repulsion on node `i` from nodes `0..upto` (skipping `i`).
pub open spec fn rep_sum_fx(s: Seq<GraphNode>, i: int, upto: int) -> int
    decreases upto,
{
    if upto <= 0 {
        0
    } else {
        rep_sum_fx(s, i, upto - 1) + if upto - 1 == i {
            0
        } else {
            rep_fx(s[i], s[upto - 1])
        }
    }
}

pub open spec fn rep_sum_fy(s: Seq<GraphNode>, i: int, upto: int) -> int
    decreases upto,
{
    if upto <= 0 {
        0
    } else {
        rep_sum_fy(s, i, upto - 1) + if upto - 1 == i {
            0
        } else {
            rep_fy(s[i], s[upto - 1])
        }
    }
}

/// The x component of the spring pull that edge partner `other` exerts on
/// `me`: magnitude `(dist - REST_LENGTH) * SPRING_NUM / SPRING_DEN` along
/// the edge, attracting beyond the rest length and repelling within it.
pub open spec fn spring_fx(me: GraphNode, other: GraphNode) -> int {
    let dx = other.x - me.x;
    let dy = other.y - me.y;
    let dist = dist_of(dx, dy);
    let f = tdiv((dist - REST_LENGTH as int) * (SPRING_NUM as int), SPRING_DEN as int);
    tdiv(dx * f, dist)
}

pub open spec fn spring_fy(me: GraphNode, other: GraphNode) -> int {
    let dx = other.x - me.x;
    let dy = other.y - me.y;
    let dist = dist_of(dx, dy);
    let f = tdiv((dist - REST_LENGTH as int) * (SPRING_NUM as int), SPRING_DEN as int);
    tdiv(dy * f, dist)
}

/// The spring force edge `e` contributes to node `i`: zero unless `i` is an
/// endpoint and the other endpoint is live.
pub open spec fn edge_fx(s: Seq<GraphNode>, e: GraphEdge, i: int) -> int {
    if s[i].id == e.from_id && has_id(s, e.to_id) {
        spring_fx(s[i], node_by_id(s, e.to_id))
    } else if s[i].id == e.to_id && has_id(s, e.from_id) {
        spring_fx(s[i], node_by_id(s, e.from_id))
    } else {
        0
    }
}

pub open spec fn edge_fy(s: Seq<GraphNode>, e: GraphEdge, i: int) -> int {
    if s[i].id == e.from_id && has_id(s, e.to_id) {
        spring_fy(s[i], node_by_id(s, e.to_id))
    } else if s[i].id == e.to_id && has_id(s, e.from_id) {
        spring_fy(s[i], node_by_id(s, e.from_id))
    } else {
        0
    }
}

/// Sum of the spring forces on node `i` from edges `0..upto`.
pub open spec fn spring_sum_fx(s: Seq<GraphNode>, es: Seq<GraphEdge>, i: int, upto: int) -> int
    decreases upto,
{
    if upto <= 0 {
        0
    } else {
        spring_sum_fx(s, es, i, upto - 1) + edge_fx(s, es[upto - 1], i)
    }
}

pub open spec fn spring_sum_fy(s: Seq<GraphNode>, es: Seq<GraphEdge>, i: int, upto: int) -> int
    decreases upto,
{
    if upto <= 0 {
        0
    } else {
        spring_sum_fy(s, es, i, upto - 1) + edge_fy(s, es[upto - 1], i)
    }
}

/// The total force on node `i`: all repulsions, all springs, and the
/// centering pull toward the origin.
pub open spec fn total_fx(s: Seq<GraphNode>, es: Seq<GraphEdge>, i: int) -> int {
    rep_sum_fx(s, i, s.len() as int) + spring_sum_fx(s, es, i, es.len() as int) - tdiv(
        s[i].x as int,
        CENTER_DEN as int,
    )
}

pub open spec fn total_fy(s: Seq<GraphNode>, es: Seq<GraphEdge>, i: int) -> int {
    rep_sum_fy(s, i, s.len() as int) + spring_sum_fy(s, es, i, es.len() as int) - tdiv(
        s[i].y as int,
        CENTER_DEN as int,
    )
}

/// One node after integration: damped velocity, speed clamp, position step.
pub open spec fn integrated(n: GraphNode, fx: int, fy: int) -> GraphNode {
    let v1x = tdiv((n.vx + fx) * (DAMP_NUM as int), DAMP_DEN as int);
    let v1y = tdiv((n.vy + fy) * (DAMP_NUM as int), DAMP_DEN as int);
    let sp = sqrt_floor(v1x * v1x + v1y * v1y);
    let v2x = if sp > MAX_SPEED {
        tdiv(v1x * (MAX_SPEED as int), sp)
    } else {
        v1x
    };
    let v2y = if sp > MAX_SPEED {
        tdiv(v1y * (MAX_SPEED as int), sp)
    } else {
        v1y
    };
    GraphNode {
        x: clamp_spec(n.x + v2x, -POS_LIMIT as int, POS_LIMIT as int) as i64,
        y: clamp_spec(n.y + v2y, -POS_LIMIT as int, POS_LIMIT as int) as i64,
        vx: v2x as i64,
        vy: v2y as i64,
        ..n
    }
}

/// The id held by a drag gesture, if any.
pub open spec fn dragged_id(p: PointerMode) -> Option<u64> {
    match p {
        PointerMode::DraggingNode { node_id, .. } => Some(node_id),
        _ => None,
    }
}

/// Node `i` after one physics step: pinned if dragged, integrated
/// otherwise.
pub open spec fn stepped_node(
    s: Seq<GraphNode>,
    es: Seq<GraphEdge>,
    i: int,
    dragged: Option<u64>,
) -> GraphNode {
    if dragged == Some(s[i].id) {
        GraphNode { vx: 0, vy: 0, ..s[i] }
    } else {
        integrated(s[i], total_fx(s, es, i), total_fy(s, es, i))
    }
}

/// The repulsion between two in-world nodes, exactly as `rep_fx`/`rep_fy`
/// give it, and never beyond `REPULSION` in magnitude.
fn pair_rep(a: &GraphNode, b: &GraphNode) -> (r: (i64, i64))
    requires
        a.wf(),
        b.wf(),
    ensures
        r.0 == rep_fx(*a, *b),
        r.1 == rep_fy(*a, *b),
        -REPULSION <= r.0 <= REPULSION,
        -REPULSION <= r.1 <= REPULSION,
{
    let dx = a.x - b.x;
    let dy = a.y - b.y;
    proof {
        lemma_sq_bound(dx as int, 2 * POS_LIMIT as int);
        lemma_sq_bound(dy as int, 2 * POS_LIMIT as int);
    }
    let d2 = (dx as i128) * (dx as i128) + (dy as i128) * (dy as i128);
    let root = isqrt(d2 as u128);
    proof {
        if root >= 30_000_000 {
            lemma_sq_le(30_000_000, root as int);
            assert(false);
        }
    }
    let dist = if root < 1000 {
        1000i64
    } else {
        root as i64
    };
    let du = ((dist as u64) / 1000) as i64;
    proof {
        assert(1 <= du <= 30_000);
        assert(1 <= du * du <= 900_000_000) by (nonlinear_arith)
            requires
                1 <= du <= 30_000,
        ;
    }
    let f = ((REPULSION as u64) / ((du * du) as u64)) as i64;
    proof {
        vstd::arithmetic::div_mod::lemma_div_is_ordered_by_denominator(
            REPULSION as int,
            1,
            (du * du) as int,
        );
        lemma_isqrt_component(dx as int, d2 as int, root as int);
        lemma_isqrt_component(dy as int, d2 as int, root as int);
        assert(-(f * dist) <= dx as int * f <= f * dist) by (nonlinear_arith)
            requires
                -dist <= dx <= dist,
                f >= 0,
        ;
        assert(-(f * dist) <= dy as int * f <= f * dist) by (nonlinear_arith)
            requires
                -dist <= dy <= dist,
                f >= 0,
        ;
        lemma_tdiv_le(dx as int * f, dist as int, f as int);
        lemma_tdiv_le(dy as int * f, dist as int, f as int);
        assert(-0x2000_0000_0000_0000 <= dx as int * f <= 0x2000_0000_0000_0000)
            by (nonlinear_arith)
            requires
                -20_000_000 <= dx <= 20_000_000,
                0 <= f <= 8_000_000,
        ;
        assert(-0x2000_0000_0000_0000 <= dy as int * f <= 0x2000_0000_0000_0000)
            by (nonlinear_arith)
            requires
                -20_000_000 <= dy <= 20_000_000,
                0 <= f <= 8_000_000,
        ;
    }
    let fdx = muldiv64(dx, f, dist);
    let fdy = muldiv64(dy, f, dist);
    (fdx, fdy)
}

/// The spring pull of `other` on `me`, exactly as `spring_fx`/`spring_fy`
/// give it, and never beyond `SPRING_FORCE_MAX` in magnitude.
fn pair_spring(me: &GraphNode, other: &GraphNode) -> (r: (i64, i64))
    requires
        me.wf(),
        other.wf(),
    ensures
        r.0 == spring_fx(*me, *other),
        r.1 == spring_fy(*me, *other),
        -SPRING_FORCE_MAX <= r.0 <= SPRING_FORCE_MAX,
        -SPRING_FORCE_MAX <= r.1 <= SPRING_FORCE_MAX,
{
    let dx = other.x - me.x;
    let dy = other.y - me.y;
    proof {
        lemma_sq_bound(dx as int, 2 * POS_LIMIT as int);
        lemma_sq_bound(dy as int, 2 * POS_LIMIT as int);
    }
    let d2 = (dx as i128) * (dx as i128) + (dy as i128) * (dy as i128);
    let root = isqrt(d2 as u128);
    proof {
        if root >= 30_000_000 {
            lemma_sq_le(30_000_000, root as int);
            assert(false);
        }
    }
    let dist = if root < 1000 {
        1000i64
    } else {
        root as i64
    };
    let f = muldiv64(dist - REST_LENGTH, SPRING_NUM, SPRING_DEN);
    proof {
        lemma_tdiv_le((dist - REST_LENGTH) as int * SPRING_NUM, SPRING_DEN as int, 600_000);
        lemma_isqrt_component(dx as int, d2 as int, root as int);
        lemma_isqrt_component(dy as int, d2 as int, root as int);
        assert(-(600_000 * dist) <= dx as int * f <= 600_000 * dist) by (nonlinear_arith)
            requires
                -dist <= dx <= dist,
                -600_000 <= f <= 600_000,
        ;
        assert(-(600_000 * dist) <= dy as int * f <= 600_000 * dist) by (nonlinear_arith)
            requires
                -dist <= dy <= dist,
                -600_000 <= f <= 600_000,
        ;
        lemma_tdiv_le(dx as int * f, dist as int, 600_000);
        lemma_tdiv_le(dy as int * f, dist as int, 600_000);
        assert(-0x2000_0000_0000_0000 <= dx as int * f <= 0x2000_0000_0000_0000)
            by (nonlinear_arith)
            requires
                -20_000_000 <= dx <= 20_000_000,
                -600_000 <= f <= 600_000,
        ;
        assert(-0x2000_0000_0000_0000 <= dy as int * f <= 0x2000_0000_0000_0000)
            by (nonlinear_arith)
            requires
                -20_000_000 <= dy <= 20_000_000,
                -600_000 <= f <= 600_000,
        ;
    }
    let fdx = muldiv64(dx, f, dist);
    let fdy = muldiv64(dy, f, dist);
    (fdx, fdy)
}

/// The total force on node `i`, exactly `total_fx`/`total_fy`, within
/// `FORCE_LIMIT`.
fn force_on(nodes: &Vec<GraphNode>, edges: &Vec<GraphEdge>, i: usize) -> (r: (i64, i64))
    requires
        i < nodes@.len(),
        nodes@.len() <= NODE_CAP,
        edges@.len() <= NODE_CAP,
        ids_unique(nodes@),
        forall|k: int| 0 <= k < nodes@.len() ==> (#[trigger] nodes@[k]).wf(),
    ensures
        r.0 == total_fx(nodes@, edges@, i as int),
        r.1 == total_fy(nodes@, edges@, i as int),
        -FORCE_LIMIT <= r.0 <= FORCE_LIMIT,
        -FORCE_LIMIT <= r.1 <= FORCE_LIMIT,
{
    let n = nodes.len();
    let m = edges.len();
    let mut ax: i64 = 0;
    let mut ay: i64 = 0;
    let mut j: usize = 0;
    while j < n
        invariant
            j <= n,
            i < n,
            n == nodes@.len(),
            n <= NODE_CAP,
            ids_unique(nodes@),
            forall|k: int| 0 <= k < nodes@.len() ==> (#[trigger] nodes@[k]).wf(),
            ax == rep_sum_fx(nodes@, i as int, j as int),
            ay == rep_sum_fy(nodes@, i as int, j as int),
            -(j as i64) * REPULSION <= ax <= (j as i64) * REPULSION,
            -(j as i64) * REPULSION <= ay <= (j as i64) * REPULSION,
        decreases n - j,
    {
        if j != i {
            let (px, py) = pair_rep(&nodes[i], &nodes[j]);
            ax = ax + px;
            ay = ay + py;
        }
        j += 1;
    }
    let mut bx: i64 = 0;
    let mut by: i64 = 0;
    let mut k: usize = 0;
    while k < m
        invariant
            k <= m,
            i < n,
            n == nodes@.len(),
            m == edges@.len(),
            m <= NODE_CAP,
            ids_unique(nodes@),
            forall|q: int| 0 <= q < nodes@.len() ==> (#[trigger] nodes@[q]).wf(),
            bx == spring_sum_fx(nodes@, edges@, i as int, k as int),
            by == spring_sum_fy(nodes@, edges@, i as int, k as int),
            -(k as i64) * SPRING_FORCE_MAX <= bx <= (k as i64) * SPRING_FORCE_MAX,
            -(k as i64) * SPRING_FORCE_MAX <= by <= (k as i64) * SPRING_FORCE_MAX,
        decreases m - k,
    {
        let e_from = edges[k].from_id;
        let e_to = edges[k].to_id;
        let my_id = nodes[i].id;
        if e_from == my_id {
            match find_node(nodes, e_to) {
                Some(oi) => {
                    proof {
                        lemma_id_index_unique(nodes@, oi as int, e_to);
                    }
                    let (sx, sy) = pair_spring(&nodes[i], &nodes[oi]);
                    bx = bx + sx;
                    by = by + sy;
                },
                None => {
                },
            }
        } else if e_to == my_id {
            match find_node(nodes, e_from) {
                Some(oi) => {
                    proof {
                        lemma_id_index_unique(nodes@, oi as int, e_from);
                    }
                    let (sx, sy) = pair_spring(&nodes[i], &nodes[oi]);
                    bx = bx + sx;
                    by = by + sy;
                },
                None => {
                },
            }
        }
        k += 1;
    }
    let cx = muldiv64(nodes[i].x, 1, CENTER_DEN);
    let cy = muldiv64(nodes[i].y, 1, CENTER_DEN);
    proof {
        lemma_tdiv_le(nodes@[i as int].x as int, CENTER_DEN as int, POS_LIMIT as int);
        lemma_tdiv_le(nodes@[i as int].y as int, CENTER_DEN as int, POS_LIMIT as int);
    }
    (ax + bx - cx, ay + by - cy)
}

/// Integrate one node under the given force.
fn integrate_node(nd: GraphNode, fxv: i64, fyv: i64) -> (r: GraphNode)
    requires
        nd.wf(),
        -FORCE_LIMIT <= fxv <= FORCE_LIMIT,
        -FORCE_LIMIT <= fyv <= FORCE_LIMIT,
    ensures
        r == integrated(nd, fxv as int, fyv as int),
        r.wf(),
{
    proof {
        lemma_tdiv_le(
            (nd.vx + fxv) as int * (DAMP_NUM as int),
            DAMP_DEN as int,
            8_000_000_000,
        );
        lemma_tdiv_le(
            (nd.vy + fyv) as int * (DAMP_NUM as int),
            DAMP_DEN as int,
            8_000_000_000,
        );
    }
    let v1x = muldiv64(nd.vx + fxv, DAMP_NUM, DAMP_DEN);
    let v1y = muldiv64(nd.vy + fyv, DAMP_NUM, DAMP_DEN);
    proof {
        lemma_sq_bound(v1x as int, 8_000_000_000);
        lemma_sq_bound(v1y as int, 8_000_000_000);
    }
    let s2 = (v1x as i128) * (v1x as i128) + (v1y as i128) * (v1y as i128);
    let sp = isqrt(s2 as u128);
    proof {
        if sp >= 12_000_000_000 {
            lemma_sq_le(12_000_000_000, sp as int);
            assert(false);
        }
        lemma_isqrt_component(v1x as int, s2 as int, sp as int);
        lemma_isqrt_component(v1y as int, s2 as int, sp as int);
    }
    let (v2x, v2y) = if sp > MAX_SPEED as u64 {
        let spi = sp as i64;
        proof {
            lemma_tdiv_le(v1x as int * (MAX_SPEED as int), spi as int, MAX_SPEED as int);
            lemma_tdiv_le(v1y as int * (MAX_SPEED as int), spi as int, MAX_SPEED as int);
        }
        (muldiv64(v1x, MAX_SPEED, spi), muldiv64(v1y, MAX_SPEED, spi))
    } else {
        (v1x, v1y)
    };
    let x2 = clamp64(nd.x + v2x, -POS_LIMIT, POS_LIMIT);
    let y2 = clamp64(nd.y + v2y, -POS_LIMIT, POS_LIMIT);
    GraphNode { x: x2, y: y2, vx: v2x, vy: v2y, ..nd }
}

impl GraphState {
    /// One physics tick. When physics is enabled and the store is
    /// non-empty, every node becomes `stepped_node` of the pre-step state;
    /// identity, labels, edges, camera and interaction state are untouched.
    pub fn advance(&mut self)
        requires
            old(self).wf(),
        ensures
            final(self).wf(),
            final(self).nodes@.len() == old(self).nodes@.len(),
            final(self).edges@ == old(self).edges@,
            final(self).next_id == old(self).next_id,
            final(self).camera == old(self).camera,
            final(self).pointer == old(self).pointer,
            final(self).hovered == old(self).hovered,
            final(self).physics_enabled == old(self).physics_enabled,
            old(self).physics_enabled && old(self).nodes@.len() > 0 ==> forall|i: int|
                0 <= i < old(self).nodes@.len() ==> final(self).nodes@[i] == stepped_node(
                    old(self).nodes@,
                    old(self).edges@,
                    i,
                    dragged_id(old(self).pointer),
                ),
            !(old(self).physics_enabled && old(self).nodes@.len() > 0) ==> final(self).nodes@
                == old(self).nodes@,
    {
        if !self.physics_enabled {
            return ;
        }
        let n = self.nodes.len();
        if n == 0 {
            return ;
        }
        let ghost s0 = self.nodes@;
        let ghost es0 = self.edges@;
        let mut fx: Vec<i64> = Vec::new();
        let mut fy: Vec<i64> = Vec::new();
        let mut i: usize = 0;
        while i < n
            invariant
                i <= n,
                n == self.nodes@.len(),
                self.nodes@ == s0,
                self.edges@ == es0,
                self.wf(),
                fx@.len() == i,
                fy@.len() == i,
                forall|k: int|
                    0 <= k < i ==> (#[trigger] fx@[k]) == total_fx(s0, es0, k) && -FORCE_LIMIT
                        <= fx@[k] <= FORCE_LIMIT,
                forall|k: int|
                    0 <= k < i ==> (#[trigger] fy@[k]) == total_fy(s0, es0, k) && -FORCE_LIMIT
                        <= fy@[k] <= FORCE_LIMIT,
            decreases n - i,
        {
            let (px, py) = force_on(&self.nodes, &self.edges, i);
            fx.push(px);
            fy.push(py);
            i += 1;
        }
        let dragged = match self.pointer {
            PointerMode::DraggingNode { node_id, .. } => Some(node_id),
            _ => None,
        };
        let mut i: usize = 0;
        while i < n
            invariant
                i <= n,
                n == s0.len(),
                self.nodes@.len() == n,
                self.edges@ == es0,
                self.next_id == old(self).next_id,
                self.camera == old(self).camera,
                self.pointer == old(self).pointer,
                self.hovered == old(self).hovered,
                self.physics_enabled == old(self).physics_enabled,
                dragged == dragged_id(old(self).pointer),
                fx@.len() == n,
                fy@.len() == n,
                forall|k: int|
                    0 <= k < n ==> (#[trigger] fx@[k]) == total_fx(s0, es0, k) && -FORCE_LIMIT
                        <= fx@[k] <= FORCE_LIMIT,
                forall|k: int|
                    0 <= k < n ==> (#[trigger] fy@[k]) == total_fy(s0, es0, k) && -FORCE_LIMIT
                        <= fy@[k] <= FORCE_LIMIT,
                forall|k: int| 0 <= k < s0.len() ==> (#[trigger] s0[k]).wf(),
                forall|k: int|
                    i <= k < n ==> (#[trigger] self.nodes@[k]) == s0[k],
                forall|k: int|
                    0 <= k < i ==> (#[trigger] self.nodes@[k]) == stepped_node(
                        s0,
                        es0,
                        k,
                        dragged,
                    ),
                forall|k: int| 0 <= k < i ==> (#[trigger] self.nodes@[k]).wf(),
            decreases n - i,
        {
            let ghost before = self.nodes@;
            let nd = self.nodes.remove(i);
            proof {
                assert(nd == s0[i as int]);
            }
            let is_dragged = match dragged {
                Some(d) => d == nd.id,
                None => false,
            };
            let stepped = if is_dragged {
                GraphNode { vx: 0, vy: 0, ..nd }
            } else {
                integrate_node(nd, fx[i], fy[i])
            };
            self.nodes.insert(i, stepped);
            proof {
                assert(self.nodes@ =~= before.update(i as int, stepped));
                assert(stepped == stepped_node(s0, es0, i as int, dragged));
                assert(stepped.wf());
            }
            i += 1;
        }
        proof {
            assert forall|k: int| 0 <= k < self.nodes@.len() implies (
            #[trigger] self.nodes@[k]).id == old(self).nodes@[k].id && self.nodes@[k].parent_id
                == old(self).nodes@[k].parent_id by {
                assert(self.nodes@[k] == stepped_node(s0, es0, k, dragged));
            }
            lemma_step_preserves_wf(*old(self), *self, dragged);
        }
    }
}

/// A physics step preserves the engine invariant: ids, parents and edges
/// are untouched, and the stepped geometry stays in bounds.
pub proof fn lemma_step_preserves_wf(pre: GraphState, post: GraphState, dragged: Option<u64>)
    requires
        pre.wf(),
        post.nodes@.len() == pre.nodes@.len(),
        forall|k: int|
            0 <= k < post.nodes@.len() ==> (#[trigger] post.nodes@[k]).wf(),
        forall|k: int|
            0 <= k < post.nodes@.len() ==> (#[trigger] post.nodes@[k]).id == pre.nodes@[k].id
                && post.nodes@[k].parent_id == pre.nodes@[k].parent_id,
        post.edges@ == pre.edges@,
        post.next_id == pre.next_id,
        post.camera == pre.camera,
        post.pointer == pre.pointer,
    ensures
        post.wf(),
{
    let s0 = pre.nodes@;
    let s1 = post.nodes@;
    assert forall|i: int|
        0 <= i < s1.len() && (#[trigger] s1[i].parent_id) is Some implies {
        &&& s1[i].parent_id->0 < s1[i].id
        &&& has_id(s1, s1[i].parent_id->0)
    } by {
        assert(s0[i].parent_id is Some);
        let p = s0[i].parent_id->0;
        let ip = id_index(s0, p);
        assert(0 <= ip < s0.len() && s0[ip].id == p);
        assert(s1[ip].id == p);
    }
    assert forall|k: int| 0 <= k < post.edges@.len() implies {
        &&& has_id(s1, (#[trigger] post.edges@[k]).to_id)
        &&& node_by_id(s1, post.edges@[k].to_id).parent_id == Some(post.edges@[k].from_id)
    } by {
        let t = pre.edges@[k].to_id;
        let it = id_index(s0, t);
        assert(0 <= it < s0.len() && s0[it].id == t);
        assert(s1[it].id == t);
        lemma_id_index_unique(s1, it, t);
        assert(s1[it].parent_id == s0[it].parent_id);
        lemma_id_index_unique(s0, it, t);
    }
    assert forall|i: int|
        0 <= i < s1.len() && (#[trigger] s1[i].parent_id) is Some implies exists|k: int|
        0 <= k < post.edges@.len() && (#[trigger] post.edges@[k]).from_id == s1[i].parent_id->0
            && post.edges@[k].to_id == s1[i].id by {
        assert(s0[i].parent_id is Some);
        let k = choose|k: int|
            0 <= k < pre.edges@.len() && (#[trigger] pre.edges@[k]).from_id
                == s0[i].parent_id->0 && pre.edges@[k].to_id == s0[i].id;
        assert(post.edges@[k].from_id == s1[i].parent_id->0 && post.edges@[k].to_id
            == s1[i].id);
    }
}

/// With one node (or none) there are no edges and no pairs, so the only
/// force on a node is the centering pull toward the origin: the step moves
/// a lone node only through that term.
pub proof fn lemma_single_node_centering_only(s: GraphState)
    requires
        s.wf(),
        s.nodes@.len() <= 1,
    ensures
        s.edges@.len() == 0,
        s.nodes@.len() == 1 ==> total_fx(s.nodes@, s.edges@, 0) == -tdiv(
            s.nodes@[0].x as int,
            CENTER_DEN as int,
        ),
        s.nodes@.len() == 1 ==> total_fy(s.nodes@, s.edges@, 0) == -tdiv(
            s.nodes@[0].y as int,
            CENTER_DEN as int,
        ),
{
    if s.edges@.len() > 0 {
        let t = s.edges@[0].to_id;
        let it = id_index(s.nodes@, t);
        assert(0 <= it < s.nodes@.len() && s.nodes@[it].id == t);
        assert(s.nodes@[it].parent_id == Some(s.edges@[0].from_id));
        assert(s.nodes@[it].parent_id is Some);
        let p = s.nodes@[it].parent_id->0;
        let ip = id_index(s.nodes@, p);
        assert(0 <= ip < s.nodes@.len() && s.nodes@[ip].id == p);
        assert(it == 0 && ip == 0);
        assert(p < s.nodes@[it].id);
        assert(false);
    }
    if s.nodes@.len() == 1 {
        assert(rep_sum_fx(s.nodes@, 0, 1) == rep_sum_fx(s.nodes@, 0, 0));
        assert(rep_sum_fy(s.nodes@, 0, 1) == rep_sum_fy(s.nodes@, 0, 0));
    }
}

} // verus!
