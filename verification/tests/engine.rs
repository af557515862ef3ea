use diptych::entry::Entry;
use diptych::graph::{GraphState, PointerMode};
use diptych::interact::Intent;

fn entry(name: &str, path: &str, is_dir: bool, ext: &str) -> Entry {
    Entry {
        name: name.to_string(),
        path: path.to_string(),
        is_dir,
        size: 0,
        modified: None,
        extension: ext.to_string(),
    }
}

fn listing_two() -> Vec<Entry> {
    vec![
        entry("Documents", "/home/alice/Documents", true, ""),
        entry("notes.txt", "/home/alice/notes.txt", false, "txt"),
    ]
}

#[test]
fn root_added_at_origin() {
    let mut g = GraphState::new();
    let id = g.add_root("/home/alice".to_string());
    assert_eq!(id, 0);
    assert_eq!(g.nodes.len(), 1);
    assert_eq!(g.nodes[0].label, "alice");
    assert_eq!(g.nodes[0].x, 0);
    assert_eq!(g.nodes[0].y, 0);
    assert!(g.nodes[0].is_dir);
    assert!(!g.nodes[0].expanded);
    assert_eq!(g.edges.len(), 0);
}

#[test]
fn expand_root_against_listing() {
    let mut g = GraphState::new();
    let root = g.add_root("/home/alice".to_string());
    g.expand_node(root, &listing_two());
    assert_eq!(g.nodes.len(), 3);
    assert_eq!(g.edges.len(), 2);
    assert!(g.nodes[0].expanded);
    assert_eq!(g.nodes[1].label, "Documents");
    assert!(g.nodes[1].is_dir);
    assert_eq!(g.nodes[1].parent_id, Some(root));
    assert_eq!(g.nodes[2].label, "notes.txt");
    assert!(!g.nodes[2].is_dir);
    assert_eq!(g.edges[0].from_id, root);
    assert_eq!(g.edges[0].to_id, g.nodes[1].id);
    assert_eq!(g.edges[1].to_id, g.nodes[2].id);
    // Children sit on a ring of roughly 120 units around the parent.
    for n in &g.nodes[1..] {
        let d2 = n.x * n.x + n.y * n.y;
        assert!(d2 <= 141_000i64 * 141_000);
    }
}

#[test]
fn expand_is_noop_on_expanded_file_or_stale() {
    let mut g = GraphState::new();
    let root = g.add_root("/r".to_string());
    g.expand_node(root, &listing_two());
    let n_nodes = g.nodes.len();
    // Already expanded: unchanged.
    g.expand_node(root, &listing_two());
    assert_eq!(g.nodes.len(), n_nodes);
    // A file node: unchanged.
    let file_id = g.nodes[2].id;
    g.expand_node(file_id, &listing_two());
    assert_eq!(g.nodes.len(), n_nodes);
    // A stale id: unchanged.
    g.expand_node(999, &listing_two());
    assert_eq!(g.nodes.len(), n_nodes);
}

#[test]
fn collapse_removes_exactly_the_subtree() {
    let mut g = GraphState::new();
    let root = g.add_root("/r".to_string());
    g.expand_node(root, &listing_two());
    let dir_id = g.nodes[1].id;
    g.expand_node(dir_id, &vec![entry("inner.rs", "/r/d/inner.rs", false, "rs")]);
    assert_eq!(g.nodes.len(), 4);
    assert_eq!(g.edges.len(), 3);
    // Collapsing the child directory removes only its own child.
    g.collapse_node(dir_id);
    assert_eq!(g.nodes.len(), 3);
    assert_eq!(g.edges.len(), 2);
    assert!(!g.nodes[1].expanded);
    assert!(g.nodes[0].expanded);
    // Collapsing the root removes the rest; the root itself stays.
    g.collapse_node(root);
    assert_eq!(g.nodes.len(), 1);
    assert_eq!(g.edges.len(), 0);
    assert_eq!(g.nodes[0].id, root);
    assert!(!g.nodes[0].expanded);
}

#[test]
fn collapse_on_collapsed_is_noop() {
    let mut g = GraphState::new();
    let root = g.add_root("/r".to_string());
    g.collapse_node(root);
    assert_eq!(g.nodes.len(), 1);
    assert!(!g.nodes[0].expanded);
    g.collapse_node(12345);
    assert_eq!(g.nodes.len(), 1);
}

#[test]
fn ids_are_never_reused() {
    let mut g = GraphState::new();
    let root = g.add_root("/r".to_string());
    g.expand_node(root, &listing_two());
    let first_ids: Vec<u64> = g.nodes.iter().map(|n| n.id).collect();
    g.collapse_node(root);
    g.expand_node(root, &listing_two());
    for n in &g.nodes[1..] {
        assert!(!first_ids.contains(&n.id));
    }
    assert_eq!(g.nodes[1].id, 3);
    assert_eq!(g.nodes[2].id, 4);
}

#[test]
fn edges_always_reference_live_nodes() {
    let mut g = GraphState::new();
    let root = g.add_root("/r".to_string());
    g.expand_node(root, &listing_two());
    let dir_id = g.nodes[1].id;
    g.expand_node(dir_id, &vec![entry("x", "/r/d/x", false, "")]);
    g.collapse_node(dir_id);
    for e in &g.edges {
        assert!(g.nodes.iter().any(|n| n.id == e.from_id));
        assert!(g.nodes.iter().any(|n| n.id == e.to_id));
    }
}

#[test]
fn advance_on_empty_and_single_node() {
    let mut g = GraphState::new();
    g.advance();
    assert_eq!(g.nodes.len(), 0);
    let _root = g.add_root("/r".to_string());
    // Move the lone node off-centre; only the centering pull acts on it.
    g.nodes[0].x = 5000;
    g.advance();
    // centering force -5; damped velocity trunc((0 - 5) * 85 / 100) = -4.
    assert_eq!(g.nodes[0].vx, -4);
    assert_eq!(g.nodes[0].x, 4996);
    assert_eq!(g.nodes[0].vy, 0);
    assert_eq!(g.nodes[0].y, 0);
}

#[test]
fn advance_speed_stays_clamped() {
    let mut g = GraphState::new();
    let root = g.add_root("/r".to_string());
    g.expand_node(root, &listing_two());
    for _ in 0..50 {
        g.advance();
        for n in &g.nodes {
            assert!(n.vx.abs() <= 8000);
            assert!(n.vy.abs() <= 8000);
            assert!(n.x.abs() <= 10_000_000);
            assert!(n.y.abs() <= 10_000_000);
        }
    }
}

#[test]
fn zoom_in_step_and_convergence() {
    let mut g = GraphState::new();
    assert_eq!(g.camera.zoom, 1000);
    g.scroll(-1);
    assert_eq!(g.camera.zoom, 1100);
    let mut last = g.camera.zoom;
    for _ in 0..9 {
        g.scroll(-1);
        assert!(g.camera.zoom >= last);
        assert!(g.camera.zoom <= 5000);
        last = g.camera.zoom;
    }
    for _ in 0..40 {
        g.scroll(-1);
    }
    assert_eq!(g.camera.zoom, 5000);
    for _ in 0..100 {
        g.scroll(1);
    }
    assert_eq!(g.camera.zoom, 100);
}

#[test]
fn node_at_miss_and_overlap() {
    let mut g = GraphState::new();
    let root = g.add_root("/r".to_string());
    // A point far outside every radius misses.
    assert_eq!(g.node_at(1_000_000, 1_000_000), None);
    // Two overlapping nodes: the most recently inserted wins.
    g.expand_node(root, &listing_two());
    let later = g.nodes[2].id;
    g.nodes[1].x = 0;
    g.nodes[1].y = 0;
    g.nodes[2].x = 0;
    g.nodes[2].y = 0;
    assert_eq!(g.node_at(0, 0), Some(later));
}

#[test]
fn drag_moves_node_to_pointer_minus_grab_offset() {
    let mut g = GraphState::new();
    let root = g.add_root("/r".to_string());
    let (w, h) = (800_000i64, 600_000i64);
    // Screen centre maps to the world origin at zoom 1, pan 0: hits the root.
    g.pointer_down(w / 2, h / 2, w, h);
    match g.pointer {
        PointerMode::DraggingNode { node_id, grab_dx, grab_dy } => {
            assert_eq!(node_id, root);
            assert_eq!(grab_dx, 0);
            assert_eq!(grab_dy, 0);
        },
        _ => panic!("expected a drag"),
    }
    g.pointer_move(w / 2 + 10_000, h / 2 + 5_000, w, h);
    assert_eq!(g.nodes[0].x, 10_000);
    assert_eq!(g.nodes[0].y, 5_000);
    assert_eq!(g.nodes[0].vx, 0);
    assert_eq!(g.nodes[0].vy, 0);
    g.pointer_up();
    match g.pointer {
        PointerMode::Idle => {},
        _ => panic!("expected idle"),
    }
}

#[test]
fn pan_moves_camera_against_pointer() {
    let mut g = GraphState::new();
    let (w, h) = (800_000i64, 600_000i64);
    // Empty space: panning starts.
    g.pointer_down(w / 2, h / 2, w, h);
    g.pointer_move(w / 2 + 50_000, h / 2, w, h);
    assert_eq!(g.camera.pan_x, -50_000);
    assert_eq!(g.camera.pan_y, 0);
    g.pointer_up();
}

#[test]
fn click_toggles_directories_and_requests_files() {
    let mut g = GraphState::new();
    let root = g.add_root("/home/alice".to_string());
    let (w, h) = (800_000i64, 600_000i64);
    // Click on the unexpanded root: the engine reports the toggle and the
    // caller completes it with the listing.
    match g.click(w / 2, h / 2, w, h) {
        Intent::ToggledNode(id) => assert_eq!(id, root),
        _ => panic!("expected a toggle"),
    }
    assert!(!g.nodes[0].expanded);
    g.expand_node(root, &listing_two());
    // Park the file node at a known spot and click it.
    g.nodes[2].x = 500_000;
    g.nodes[2].y = 0;
    g.nodes[1].x = -500_000;
    g.nodes[1].y = 0;
    match g.click(w / 2 + 500_000, h / 2, w, h) {
        Intent::OpenRequested(key) => assert_eq!(key, "/home/alice/notes.txt"),
        _ => panic!("expected an open request"),
    }
    // Click the expanded root: it collapses.
    match g.click(w / 2, h / 2, w, h) {
        Intent::ToggledNode(id) => assert_eq!(id, root),
        _ => panic!("expected a toggle"),
    }
    assert_eq!(g.nodes.len(), 1);
    assert!(!g.nodes[0].expanded);
    // Click on empty space does nothing.
    match g.click(w / 2 + 700_000, h / 2 + 500_000, w, h) {
        Intent::NoOp => {},
        _ => panic!("expected nothing"),
    }
}

#[test]
fn hover_tracks_node_under_pointer() {
    let mut g = GraphState::new();
    let root = g.add_root("/r".to_string());
    let (w, h) = (800_000i64, 600_000i64);
    g.hover(w / 2, h / 2, w, h);
    assert_eq!(g.hovered, Some(root));
    g.hover(w / 2 + 700_000, h / 2, w, h);
    assert_eq!(g.hovered, None);
}

#[test]
fn snapshot_reflects_state() {
    let mut g = GraphState::new();
    let root = g.add_root("/r".to_string());
    g.expand_node(root, &listing_two());
    let (w, h) = (800_000i64, 600_000i64);
    g.hover(w / 2, h / 2, w, h);
    let snap = g.snapshot();
    assert_eq!(snap.nodes.len(), 3);
    assert_eq!(snap.edges.len(), 2);
    assert_eq!(snap.zoom, 1000);
    assert!(snap.nodes[0].hovered);
    assert!(!snap.nodes[1].hovered);
    assert_eq!(snap.nodes[1].label, "Documents");
    // Directory and file tints differ.
    assert_ne!(snap.nodes[1].color, snap.nodes[2].color);
}

#[test]
fn dragged_node_is_pinned_during_physics() {
    let mut g = GraphState::new();
    let root = g.add_root("/r".to_string());
    g.expand_node(root, &listing_two());
    let (w, h) = (800_000i64, 600_000i64);
    g.pointer_down(w / 2, h / 2, w, h);
    let x0 = g.nodes[0].x;
    let y0 = g.nodes[0].y;
    g.advance();
    assert_eq!(g.nodes[0].x, x0);
    assert_eq!(g.nodes[0].y, y0);
    assert_eq!(g.nodes[0].vx, 0);
    assert_eq!(g.nodes[0].vy, 0);
}
