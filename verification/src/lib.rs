//! Page-pairing and diff-orchestration pipeline for visual comparison of two
//! paginated documents.
//!
//! The verified core decides how pages of the two inputs are paired when their
//! page counts differ, plans the per-page rasterization (with a render
//! configuration cache keyed by page geometry), builds the per-page compare
//! requests, collects the final ordered raster sequence, and drives the whole
//! run as an explicit state machine.  The collaborators that touch the disk
//! (the rendering engine, the pixel comparison, the filesystem) are driven
//! from outside through the actions this library emits.

pub mod align;
pub mod diffplan;
pub mod export;
pub mod numtext;
pub mod options;
pub mod paths;
pub mod pipeline;
pub mod render;
pub mod workspace;
