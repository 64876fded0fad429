use vstd::prelude::*;

verus! {

/// Errors surfaced by the correction pipeline.
///
/// Configuration problems (bad dimensions, mismatched map lengths) are
/// detected host-side and reported before any device work would be issued;
/// resource and execution failures are fatal for the construction or the
/// submission they belong to; a full frame-slot ring is recoverable by
/// retrying after an in-flight frame completes.
#[derive(Clone, Copy, Debug, PartialEq, Eq, Structural)]
pub enum MyError {
    /// A shader module could not be created.
    ShaderCreationError,
    /// A reference map's length does not match the configured image size.
    InvalidTextureData,
    /// A texture could not be created.
    TextureCreationError,
    /// A buffer could not be created.
    BufferCreationError,
    /// Image dimensions or construction parameters are invalid.
    InvalidImageData,
    /// No compute-capable adapter is available.
    NoSuitableAdapter,
    /// The device request was rejected by the driver.
    DeviceCreationFailed,
    /// A submission, mapping, or fence failed; fatal for that submission.
    GpuExecutionFailed,
    /// Every frame slot is occupied by an in-flight submission.
    RingBufferFull,
    /// A caller-supplied deadline elapsed before the submission completed.
    Timeout,
}

} // verus!
