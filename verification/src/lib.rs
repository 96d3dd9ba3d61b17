//! Verified core of a root-window background setter.
//!
//! The library models the off-screen shared-memory canvas, the pixel
//! compositor, the fade-animation pacing, and the screen/monitor geometry
//! as plain verified data and functions.  All display-server traffic
//! (connection, pixmaps, shared-memory round trips, property updates)
//! stays outside the library and hands plain values in and out.

use vstd::prelude::*;

pub mod canvas;
pub mod fade;
pub mod pixel;
pub mod setter;

verus! {

/// Errors reported by the library.
#[derive(Debug, PartialEq, Eq, Structural, Clone, Copy)]
pub enum BgError {
    /// The server reported no root surface at all.
    NoRoot,
    /// A source image dimension exceeds the 16-bit coordinate space.
    ToLargeRgb,
    /// No usable pixel format of the requested depth, so the canvas
    /// (and its shared-memory segment) cannot be allocated.
    AllocFailed,
}

} // verus!
