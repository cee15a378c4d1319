//! Watermark compositing engine: corner placement geometry, area-relative
//! watermark scaling, orientation normalization, collision-safe output
//! directory naming, batch candidate selection, and progress signaling.
pub mod batch;
pub mod files;
pub mod frame;
pub mod geometry;
pub mod orientation;
pub mod outdir;
pub mod progress;
pub mod scaling;

pub use geometry::Alignment;
