use vstd::prelude::*;

verus! {

/// The ways in which loading or rendering an image can fail.
///
/// Each rendering-engine step reports its own kind; none is retried.
#[derive(Debug, Clone, Copy, PartialEq, Eq, Structural)]
pub enum ImageError {
    /// The target surface could not be allocated.
    SurfaceCreationFailed,
    /// No drawing context could be bound to the target surface.
    ContextCreationFailed,
    /// The decoded source could not be set as the paint source.
    SourceBindingFailed,
    /// The paint operation did not complete.
    CompositeFailed,
    /// The rendered pixel bytes could not be read back.
    PixelExtractionFailed,
    /// The path could not be loaded or decoded into a source image.
    DecodeFailed,
    /// A source or target dimension is zero.
    InvalidDimensions,
}

} // verus!
