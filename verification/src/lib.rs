//! A scene-to-draw-call compiler for a hardware-accelerated 2D vector
//! rasterizer: it walks a parsed vector scene graph (groups, filled
//! paths, embedded raster or vector images, text runs turned into
//! outlines) and emits the ordered sequence of backend operations that
//! paints it onto a fixed-size pixel surface.
//!
//! Geometry is kept in exact rational arithmetic; the backend is
//! modeled as an operation trace whose call statuses come from an
//! oracle supplied by the caller, so the compiler's behavior — what it
//! draws, when it fails, and that every transient buffer is freed
//! exactly once — is stated and verified for every outcome of every
//! backend call.

pub mod backend;
pub mod paint;
pub mod path;
pub mod raster;
pub mod scene;
pub mod transform;
pub mod walker;
