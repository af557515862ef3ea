//! Diptych: a file-browser core built around an interactive node-graph
//! visualization engine.
//!
//! The engine renders a filesystem subtree as a force-directed graph: nodes
//! are files and directories, edges connect a directory to its immediate
//! children. Directories expand and collapse lazily on demand, the camera
//! pans and zooms, and nodes can be dragged. All world-space geometry is
//! fixed-point: one world unit is `MILLI` (1000) coordinate steps, so the
//! whole simulation is exact integer arithmetic.
//!
//! Around the engine sit the smaller, pure parts of the application: theme
//! palettes and CSS, icon tables, file-entry formatting and grouping, and
//! the thumbnail cache's key derivation. All I/O (directory listing, config
//! persistence, thumbnail generation) is the caller's concern; the library
//! computes from plain values.

pub mod math;
pub mod camera;
pub mod strutil;
pub mod graph;
pub mod color;
pub mod physics;
pub mod interact;
pub mod entry;
pub mod layout;
pub mod trusted;
pub mod config;
pub mod icons;
pub mod theme;
pub mod thumbs;
pub mod preview;
pub mod render;
pub mod themes;
