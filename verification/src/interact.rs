//! The interaction controller: pointer and scroll events.
//!
//! A pointer-down either grabs the node under the pointer (recording the
//! offset between pointer and node centre, so the node does not jump) or
//! starts panning the camera. Moves drive the grabbed node or the pan;
//! release returns to idle. A click toggles a directory node or asks for a
//! file to be opened; scrolling zooms. Every event has a defined effect in
//! every state — unexpected events are ignored, never errors.

use vstd::prelude::*;
use crate::camera::{Camera, POS_LIMIT, SCREEN_LIMIT, WORLD_LIMIT};
use crate::graph::{
    GraphNode, GraphState, PointerMode, has_id, id_index, node_by_id, lemma_id_index_unique,
    surviving_edges, surviving_nodes,
};
use crate::math::{clamp_spec, clamp64, tdiv, muldiv64, lemma_tdiv_le, lemma_mul_le};
use crate::physics::lemma_step_preserves_wf;

verus! {

/// What a click asks of the caller: nothing, a directory whose expansion
/// state was toggled (collapse happens inside the engine; expansion is
/// completed by the caller, who owns the directory listing, through
/// `expand_node`), or a file to open.
pub enum Intent {
    NoOp,
    ToggledNode(u64),
    OpenRequested(String),
}

/// The node `s[idx]` moved by a drag to `(wx - gdx, wy - gdy)`, clamped to
/// the world, with its velocity zeroed.
pub open spec fn dragged_to(n: GraphNode, wx: int, wy: int, gdx: int, gdy: int) -> GraphNode {
    GraphNode {
        x: clamp_spec(wx - gdx, -POS_LIMIT as int, POS_LIMIT as int) as i64,
        y: clamp_spec(wy - gdy, -POS_LIMIT as int, POS_LIMIT as int) as i64,
        vx: 0,
        vy: 0,
        ..n
    }
}

impl GraphState {
    /// Update the hover highlight to the node under the pointer.
    pub fn hover(&mut self, sx: i64, sy: i64, view_w: i64, view_h: i64)
        requires
            old(self).wf(),
            -SCREEN_LIMIT <= sx <= SCREEN_LIMIT,
            -SCREEN_LIMIT <= sy <= SCREEN_LIMIT,
            0 <= view_w <= SCREEN_LIMIT,
            0 <= view_h <= SCREEN_LIMIT,
        ensures
            final(self).wf(),
            final(self).hovered == Self::last_hit(
                old(self).nodes@,
                Camera::spec_to_world(
                    sx as int,
                    view_w as int,
                    old(self).camera.zoom as int,
                    old(self).camera.pan_x as int,
                ),
                Camera::spec_to_world(
                    sy as int,
                    view_h as int,
                    old(self).camera.zoom as int,
                    old(self).camera.pan_y as int,
                ),
            ),
            *final(self) == (GraphState { hovered: final(self).hovered, ..*old(self) }),
    {
        let (wx, wy) = self.camera.screen_to_world(sx, sy, view_w, view_h);
        self.hovered = self.node_at(wx, wy);
    }

    /// Pointer pressed: grab the node under it, or start panning. Ignored
    /// unless idle.
    pub fn pointer_down(&mut self, sx: i64, sy: i64, view_w: i64, view_h: i64)
        requires
            old(self).wf(),
            -SCREEN_LIMIT <= sx <= SCREEN_LIMIT,
            -SCREEN_LIMIT <= sy <= SCREEN_LIMIT,
            0 <= view_w <= SCREEN_LIMIT,
            0 <= view_h <= SCREEN_LIMIT,
        ensures
            final(self).wf(),
            *final(self) == (GraphState { pointer: final(self).pointer, ..*old(self) }),
            !(old(self).pointer is Idle) ==> final(self).pointer == old(self).pointer,
            old(self).pointer is Idle ==> {
                let wx = Camera::spec_to_world(
                    sx as int,
                    view_w as int,
                    old(self).camera.zoom as int,
                    old(self).camera.pan_x as int,
                );
                let wy = Camera::spec_to_world(
                    sy as int,
                    view_h as int,
                    old(self).camera.zoom as int,
                    old(self).camera.pan_y as int,
                );
                match Self::last_hit(old(self).nodes@, wx, wy) {
                    Some(id) => final(self).pointer == (PointerMode::DraggingNode {
                        node_id: id,
                        grab_dx: (wx - node_by_id(old(self).nodes@, id).x) as i64,
                        grab_dy: (wy - node_by_id(old(self).nodes@, id).y) as i64,
                    }),
                    None => final(self).pointer == (PointerMode::PanningCamera {
                        start_sx: sx,
                        start_sy: sy,
                        start_pan_x: old(self).camera.pan_x,
                        start_pan_y: old(self).camera.pan_y,
                    }),
                }
            },
    {
        match self.pointer {
            PointerMode::Idle => {},
            _ => {
                return ;
            },
        }
        let (wx, wy) = self.camera.screen_to_world(sx, sy, view_w, view_h);
        match self.node_at(wx, wy) {
            Some(id) => {
                proof {
                    crate::graph::lemma_last_hit_has(self.nodes@, wx as int, wy as int);
                }
                match self.find_index(id) {
                    Some(idx) => {
                        proof {
                            lemma_id_index_unique(self.nodes@, idx as int, id);
                        }
                        let nx = self.nodes[idx].x;
                        let ny = self.nodes[idx].y;
                        self.pointer = PointerMode::DraggingNode {
                            node_id: id,
                            grab_dx: wx - nx,
                            grab_dy: wy - ny,
                        };
                    },
                    None => {
                        proof {
                            assert(false);
                        }
                    },
                }
            },
            None => {
                self.pointer = PointerMode::PanningCamera {
                    start_sx: sx,
                    start_sy: sy,
                    start_pan_x: self.camera.pan_x,
                    start_pan_y: self.camera.pan_y,
                };
            },
        }
    }

    /// Pointer moved: drive the grabbed node to the pointer (minus the
    /// recorded grab offset, velocity zeroed), or pan the camera from its
    /// recorded start. Idle moves do nothing.
    pub fn pointer_move(&mut self, sx: i64, sy: i64, view_w: i64, view_h: i64)
        requires
            old(self).wf(),
            -SCREEN_LIMIT <= sx <= SCREEN_LIMIT,
            -SCREEN_LIMIT <= sy <= SCREEN_LIMIT,
            0 <= view_w <= SCREEN_LIMIT,
            0 <= view_h <= SCREEN_LIMIT,
        ensures
            final(self).wf(),
            final(self).pointer == old(self).pointer,
            final(self).next_id == old(self).next_id,
            final(self).hovered == old(self).hovered,
            final(self).physics_enabled == old(self).physics_enabled,
            final(self).edges@ == old(self).edges@,
            ({
                let wx = Camera::spec_to_world(
                    sx as int,
                    view_w as int,
                    old(self).camera.zoom as int,
                    old(self).camera.pan_x as int,
                );
                let wy = Camera::spec_to_world(
                    sy as int,
                    view_h as int,
                    old(self).camera.zoom as int,
                    old(self).camera.pan_y as int,
                );
                match old(self).pointer {
                    PointerMode::DraggingNode { node_id, grab_dx, grab_dy } => {
                        &&& final(self).camera == old(self).camera
                        &&& if has_id(old(self).nodes@, node_id) {
                            final(self).nodes@ == old(self).nodes@.update(
                                id_index(old(self).nodes@, node_id),
                                dragged_to(
                                    node_by_id(old(self).nodes@, node_id),
                                    wx,
                                    wy,
                                    grab_dx as int,
                                    grab_dy as int,
                                ),
                            )
                        } else {
                            final(self).nodes@ == old(self).nodes@
                        }
                    },
                    PointerMode::PanningCamera { start_sx, start_sy, start_pan_x, start_pan_y } => {
                        &&& final(self).nodes@ == old(self).nodes@
                        &&& final(self).camera.zoom == old(self).camera.zoom
                        &&& final(self).camera.pan_x == clamp_spec(
                            start_pan_x - tdiv(
                                (sx - start_sx) * 1000,
                                old(self).camera.zoom as int,
                            ),
                            -POS_LIMIT as int,
                            POS_LIMIT as int,
                        )
                        &&& final(self).camera.pan_y == clamp_spec(
                            start_pan_y - tdiv(
                                (sy - start_sy) * 1000,
                                old(self).camera.zoom as int,
                            ),
                            -POS_LIMIT as int,
                            POS_LIMIT as int,
                        )
                    },
                    PointerMode::Idle => {
                        &&& final(self).nodes@ == old(self).nodes@
                        &&& final(self).camera == old(self).camera
                    },
                }
            }),
    {
        let mode = self.pointer;
        match mode {
            PointerMode::Idle => {},
            PointerMode::DraggingNode { node_id, grab_dx, grab_dy } => {
                let (wx, wy) = self.camera.screen_to_world(sx, sy, view_w, view_h);
                match self.find_index(node_id) {
                    Some(idx) => {
                        proof {
                            lemma_id_index_unique(self.nodes@, idx as int, node_id);
                        }
                        let nd = self.nodes.remove(idx);
                        let moved = GraphNode {
                            x: clamp64(wx - grab_dx, -POS_LIMIT, POS_LIMIT),
                            y: clamp64(wy - grab_dy, -POS_LIMIT, POS_LIMIT),
                            vx: 0,
                            vy: 0,
                            ..nd
                        };
                        self.nodes.insert(idx, moved);
                        proof {
                            assert(self.nodes@ =~= old(self).nodes@.update(
                                idx as int,
                                moved,
                            ));
                            lemma_step_preserves_wf(*old(self), *self, None);
                        }
                    },
                    None => {},
                }
            },
            PointerMode::PanningCamera { start_sx, start_sy, start_pan_x, start_pan_y } => {
                proof {
                    lemma_mul_le(100, self.camera.zoom as int, 2_000_000_000);
                    lemma_tdiv_le(
                        (sx - start_sx) as int * 1000,
                        self.camera.zoom as int,
                        2_000_000_000,
                    );
                    lemma_tdiv_le(
                        (sy - start_sy) as int * 1000,
                        self.camera.zoom as int,
                        2_000_000_000,
                    );
                }
                let dx = muldiv64(sx - start_sx, 1000, self.camera.zoom);
                let dy = muldiv64(sy - start_sy, 1000, self.camera.zoom);
                self.camera.pan_x = clamp64(start_pan_x - dx, -POS_LIMIT, POS_LIMIT);
                self.camera.pan_y = clamp64(start_pan_y - dy, -POS_LIMIT, POS_LIMIT);
            },
        }
    }

    /// Pointer released: back to idle, clearing any grab or pan context.
    pub fn pointer_up(&mut self)
        requires
            old(self).wf(),
        ensures
            final(self).wf(),
            final(self).pointer is Idle,
            *final(self) == (GraphState { pointer: PointerMode::Idle, ..*old(self) }),
    {
        self.pointer = PointerMode::Idle;
    }

    /// One scroll step: zoom in when the vertical delta is negative, out
    /// otherwise; nothing else changes, and the zoom stays clamped.
    pub fn scroll(&mut self, delta_y: i64)
        requires
            old(self).wf(),
        ensures
            final(self).wf(),
            final(self).camera.zoom == Camera::spec_zoom_step(
                old(self).camera.zoom as int,
                delta_y < 0,
            ),
            final(self).camera.pan_x == old(self).camera.pan_x,
            final(self).camera.pan_y == old(self).camera.pan_y,
            *final(self) == (GraphState { camera: final(self).camera, ..*old(self) }),
    {
        self.camera.scroll(delta_y);
    }

    /// A click (press and release with no drag between): toggle the
    /// directory under the pointer, or ask for the file there to be opened.
    /// A click on empty space does nothing.
    pub fn click(&mut self, sx: i64, sy: i64, view_w: i64, view_h: i64) -> (r: Intent)
        requires
            old(self).wf(),
            -SCREEN_LIMIT <= sx <= SCREEN_LIMIT,
            -SCREEN_LIMIT <= sy <= SCREEN_LIMIT,
            0 <= view_w <= SCREEN_LIMIT,
            0 <= view_h <= SCREEN_LIMIT,
        ensures
            final(self).wf(),
            ({
                let wx = Camera::spec_to_world(
                    sx as int,
                    view_w as int,
                    old(self).camera.zoom as int,
                    old(self).camera.pan_x as int,
                );
                let wy = Camera::spec_to_world(
                    sy as int,
                    view_h as int,
                    old(self).camera.zoom as int,
                    old(self).camera.pan_y as int,
                );
                match Self::last_hit(old(self).nodes@, wx, wy) {
                    None => r is NoOp && *final(self) == *old(self),
                    Some(id) => {
                        let n = node_by_id(old(self).nodes@, id);
                        if n.is_dir {
                            &&& r == Intent::ToggledNode(id)
                            &&& if n.expanded {
                                &&& final(self).nodes@ == surviving_nodes(
                                    old(self).nodes@,
                                    old(self).nodes@,
                                    id,
                                )
                                &&& final(self).edges@ == surviving_edges(
                                    old(self).edges@,
                                    old(self).nodes@,
                                    id,
                                )
                                &&& final(self).next_id == old(self).next_id
                                &&& final(self).camera == old(self).camera
                                &&& final(self).pointer == old(self).pointer
                            } else {
                                *final(self) == *old(self)
                            }
                        } else {
                            &&& r matches Intent::OpenRequested(k) && k@ == n.source_key@
                            &&& *final(self) == *old(self)
                        }
                    },
                }
            }),
    {
        let (wx, wy) = self.camera.screen_to_world(sx, sy, view_w, view_h);
        match self.node_at(wx, wy) {
            None => Intent::NoOp,
            Some(id) => {
                proof {
                    crate::graph::lemma_last_hit_has(self.nodes@, wx as int, wy as int);
                }
                match self.find_index(id) {
                    Some(idx) => {
                        proof {
                            lemma_id_index_unique(self.nodes@, idx as int, id);
                        }
                        if self.nodes[idx].is_dir {
                            if self.nodes[idx].expanded {
                                self.collapse_node(id);
                            }
                            Intent::ToggledNode(id)
                        } else {
                            let key = self.nodes[idx].source_key.clone();
                            Intent::OpenRequested(key)
                        }
                    },
                    None => {
                        proof {
                            assert(false);
                        }
                        Intent::NoOp
                    },
                }
            },
        }
    }
}

} // verus!
