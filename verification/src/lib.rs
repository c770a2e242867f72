//! A small inventory-display library: a texture catalog keyed by file stem,
//! a fixed-capacity grid of named, stacked items, and the pure per-frame
//! logic behind it (slot layout, draw-command planning, pointer hit testing).
//!
//! All rendering and input collection happens outside this crate: a host
//! passes in what it observed (directory scans, pointer positions) and
//! executes the draw commands this crate plans.

pub mod catalog;
pub mod grid;
pub mod inventory;
pub mod text;
