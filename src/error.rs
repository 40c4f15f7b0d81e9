use vstd::prelude::*;

verus! {

/// Everything that can go wrong while coordinating surfaces, contexts and buffers.
#[derive(Debug, Clone, Copy, PartialEq, Eq, Structural)]
pub enum RenderError {
    /// The pixel format has no configuration template.
    UnsupportedFormat,
    /// The backend enumerated no configuration for the template.
    NoMatchingConfiguration,
    /// Both the primary and the fallback context profile failed.
    ContextCreationFailed,
    /// The format's context is already checked out (a reentrant render).
    AlreadyCheckedOut,
    /// The window identity is already registered.
    SurfaceExists,
    /// The window identity is not registered.
    UnknownSurface,
    /// The context could not be made current on the surface.
    BindFailed,
    /// The renderer could not be resized to the surface.
    ResizeFailed,
    /// The renderer failed to draw.
    DrawFailed,
    /// Swapping the surface's buffers failed.
    PresentFailed,
    /// The context could not be released from the thread after the frame.
    UnbindFailed,
    /// Waiting on a readiness fence failed on the compositor side.
    FenceWaitFailed,
}

} // verus!
