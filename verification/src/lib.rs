//! A verified window-compositor core for a grid-based text editor UI.
//!
//! The crate owns the pure, checkable part of a renderer: easing-curve
//! animation of window positions and scroll offsets, grid-to-pixel
//! geometry, styled-cell colour resolution, per-window offscreen content
//! bookkeeping, and the frame compositor that orders base-layer and
//! floating windows deterministically.  All coordinates are fixed-point
//! integers (thousandths of a cell or pixel), so every contract is exact.
//! Rasterisation onto a real drawing surface is left to the embedding
//! application, which consumes the draw details this crate computes.

pub mod animation;
pub mod metrics;
pub mod renderer;
pub mod rendered_window;
pub mod style;
pub mod units;
