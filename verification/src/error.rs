//! The failures and diagnostics that the toolkit reports to its caller.

use vstd::prelude::*;

verus! {

/// Everything that can go wrong while setting up or drawing a frame.
///
/// The first two variants end start-up; the other three are diagnostics of a
/// drawing call that has nevertheless run to completion.
#[derive(Clone, Copy, Debug, PartialEq, Eq, Structural)]
pub enum RenderError {
    /// The native window could not be created.
    SurfaceInitError,
    /// The font bytes are not a font that the rasteriser can load.
    FontLoadError,
    /// A code point of the text has no glyph in the font; it was skipped.
    MissingGlyph,
    /// A pixel buffer is shorter than its declared size; the cells that lie
    /// beyond its end were skipped.
    BufferBoundsViolation,
    /// The source or the destination of a copy holds no pixels; nothing was
    /// drawn.
    EmptySourceOrDestination,
}

} // verus!
