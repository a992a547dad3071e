use vstd::prelude::*;

verus! {

/// The failure taxonomy of the engine. Every failure is value-returned;
/// nothing is retried internally and no partial tile is ever produced.
#[derive(Clone, Copy, Debug, PartialEq, Eq)]
pub enum DeepZoomError {
    /// Bad construction parameters: the generator was not created.
    ConfigurationError,
    /// A virtual level or tile coordinate outside the computed bounds,
    /// or a degenerate tile whose native read region would be empty.
    OutOfRange,
    /// The backend region read failed.
    ReadFailure,
    /// Pixel decoding or resampling failed.
    RenderFailure,
}

} // verus!
