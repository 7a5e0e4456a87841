//! `[osd]` configuration: where the surface is anchored.
//!
//! The rest of the block (sizes, opacity, waveform timing and gain) holds
//! floats and is defined by the application.

use vstd::prelude::*;

verus! {

/// Position anchor for the OSD surface on the focused output.
#[derive(Debug, Clone, Copy, PartialEq, Eq, Structural)]
pub enum OsdPosition {
    BottomCenter,
    TopCenter,
    BottomLeft,
    BottomRight,
    TopLeft,
    TopRight,
}

impl Default for OsdPosition {
    /// Bottom center.
    fn default() -> (p: Self)
        ensures
            p == OsdPosition::BottomCenter,
    {
        OsdPosition::BottomCenter
    }
}

} // verus!
