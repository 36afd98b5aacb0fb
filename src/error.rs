use vstd::prelude::*;

verus! {

/// What can stop the pipeline.
#[derive(Clone, Copy, Debug, PartialEq, Eq, Structural)]
pub enum GlowError {
    /// The compositor failed more captures in a row than the session allows.
    CaptureUnavailable,
    /// A light region lies outside the captured frame.
    OutOfBounds,
    /// A colour buffer does not hold one triple per light.
    SizeMismatch,
    /// Writing to the light strip failed.
    TransportError,
    /// The compositor sent an event that the capture session did not expect.
    UnexpectedEvent,
}

} // verus!
