//! The render snapshot: a read-only view of the engine for an external
//! renderer, assembled on demand and reflecting exactly the committed
//! state.

use vstd::prelude::*;
use crate::graph::{GraphEdge, GraphState, NodeColor};

verus! {

/// What the renderer needs of one node.
pub struct RenderNode {
    pub id: u64,
    pub label: String,
    pub x: i64,
    pub y: i64,
    pub radius: i64,
    pub color: NodeColor,
    pub is_dir: bool,
    pub expanded: bool,
    pub hovered: bool,
}

/// One frame's worth of state: nodes, edges, camera.
pub struct RenderSnapshot {
    pub nodes: Vec<RenderNode>,
    pub edges: Vec<GraphEdge>,
    pub pan_x: i64,
    pub pan_y: i64,
    pub zoom: i64,
}

impl GraphState {
    /// Assemble a snapshot of the current state: every node (flagged if it
    /// is the hovered one), every edge, and the camera, unchanged.
    pub fn snapshot(&self) -> (r: RenderSnapshot)
        ensures
            r.nodes@.len() == self.nodes@.len(),
            forall|i: int|
                0 <= i < self.nodes@.len() ==> {
                    let n = self.nodes@[i];
                    let v = #[trigger] r.nodes@[i];
                    &&& v.id == n.id
                    &&& v.label@ == n.label@
                    &&& v.x == n.x
                    &&& v.y == n.y
                    &&& v.radius == n.radius
                    &&& v.color == n.color
                    &&& v.is_dir == n.is_dir
                    &&& v.expanded == n.expanded
                    &&& v.hovered == (self.hovered == Some(n.id))
                },
            r.edges@ == self.edges@,
            r.pan_x == self.camera.pan_x,
            r.pan_y == self.camera.pan_y,
            r.zoom == self.camera.zoom,
    {
        let mut nodes: Vec<RenderNode> = Vec::new();
        let count = self.nodes.len();
        let mut i: usize = 0;
        while i < count
            invariant
                i <= count,
                count == self.nodes@.len(),
                nodes@.len() == i,
                forall|q: int|
                    0 <= q < i ==> {
                        let n = self.nodes@[q];
                        let v = #[trigger] nodes@[q];
                        &&& v.id == n.id
                        &&& v.label@ == n.label@
                        &&& v.x == n.x
                        &&& v.y == n.y
                        &&& v.radius == n.radius
                        &&& v.color == n.color
                        &&& v.is_dir == n.is_dir
                        &&& v.expanded == n.expanded
                        &&& v.hovered == (self.hovered == Some(n.id))
                    },
            decreases count - i,
        {
            let n = &self.nodes[i];
            let hovered = match self.hovered {
                Some(h) => h == n.id,
                None => false,
            };
            nodes.push(RenderNode {
                id: n.id,
                label: n.label.clone(),
                x: n.x,
                y: n.y,
                radius: n.radius,
                color: n.color,
                is_dir: n.is_dir,
                expanded: n.expanded,
                hovered,
            });
            i += 1;
        }
        let mut edges: Vec<GraphEdge> = Vec::new();
        let ecount = self.edges.len();
        let mut k: usize = 0;
        while k < ecount
            invariant
                k <= ecount,
                ecount == self.edges@.len(),
                edges@.len() == k,
                forall|q: int| 0 <= q < k ==> (#[trigger] edges@[q]) == self.edges@[q],
            decreases ecount - k,
        {
            edges.push(self.edges[k]);
            k += 1;
        }
        proof {
            assert(edges@ =~= self.edges@);
        }
        RenderSnapshot {
            nodes,
            edges,
            pan_x: self.camera.pan_x,
            pan_y: self.camera.pan_y,
            zoom: self.camera.zoom,
        }
    }
}

} // verus!
