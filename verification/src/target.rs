//! Output targets and what to clear them to.

use crate::shade::F32Bits;
use vstd::prelude::*;

verus! {

/// Executor-side name of a frame buffer.
pub type FrameBuffer = u32;

/// Executor-side name of a render surface.
pub type SurfaceHandle = u32;

/// A colour as red, green, blue and alpha.
pub type Color = [F32Bits; 4];

/// What a clear resets. Each part is cleared only where a value is given;
/// so far only the colour can be cleared.
#[derive(Clone, Copy, Debug, PartialEq, Eq)]
pub struct ClearData {
    pub color: Option<Color>,
    pub depth: Option<F32Bits>,
    pub stencil: Option<u8>,
}

/// An off-screen output target, described by the surfaces it renders into.
#[derive(Clone, Debug, PartialEq, Eq)]
pub struct Frame {
    pub colors: Vec<SurfaceHandle>,
    pub depth: Option<SurfaceHandle>,
    pub stencil: Option<SurfaceHandle>,
}

impl ClearData {
    /// Whether the clear asks for nothing beyond the colour planes, the only
    /// part a clear can reset so far.
    pub fn is_supported(&self) -> (supported: bool)
        ensures
            supported == (self.depth is None && self.stencil is None),
    {
        self.depth.is_none() && self.stencil.is_none()
    }
}

} // verus!
