//! Descriptions of capture sources, as the application hands them to the
//! platform capture layer. The capture devices themselves (screens,
//! cameras, audio endpoints) are outside collaborators: this module only
//! carries their descriptions and the process-wide bracket calls.

use vstd::prelude::*;

verus! {

/// A capture-layer failure surfaced by the platform backend.
#[derive(Debug, Clone, Copy, PartialEq, Eq, Structural)]
pub enum CaptureError {
    /// The platform backend refused to start or stop.
    Platform,
}

/// A sink for captured data. The capture source calls `sink` for each
/// new frame; returning `false` stops the source.
pub trait FrameArrived: Sync + Send {
    /// The type of data captured, such as video frames.
    type Frame;

    /// Called when the capture source has new data. If it returns false,
    /// the source stops capturing.
    fn sink(&mut self, frame: &Self::Frame) -> bool;
}

/// The kinds of capture source.
#[derive(Debug, Clone, Copy, PartialEq, Eq, Structural)]
pub enum SourceType {
    Camera,
    Screen,
    Audio,
}

/// One selectable capture source.
#[derive(Debug, Clone)]
pub struct Source {
    pub id: String,
    pub name: String,
    pub index: usize,
    pub kind: SourceType,
    pub is_default: bool,
}

/// A pixel size.
#[derive(Debug, Clone, Copy, PartialEq, Eq, Structural)]
pub struct Size {
    pub width: u32,
    pub height: u32,
}

/// What to capture from a video source, and how.
#[derive(Debug, Clone)]
pub struct VideoCaptureSourceDescription {
    pub source: Source,
    pub size: Size,
    pub fps: u8,
}

/// What to capture from an audio source, and how.
#[derive(Debug, Clone)]
pub struct AudioCaptureSourceDescription {
    pub source: Source,
    pub sample_rate: u32,
}

/// One source together with the sink its frames go to.
pub struct SourceCaptureOptions<T, P> {
    pub description: P,
    pub arrived: T,
}

/// Bracket call before any capture use. Platform backends that need
/// global initialisation would do it here; the portable path has nothing
/// to set up and always succeeds.
pub fn startup() -> (r: Result<(), CaptureError>)
    ensures
        r is Ok,
{
    Ok(())
}

/// Bracket call after the last capture use; the mirror image of
/// `startup`, and like it the portable path always succeeds.
pub fn shutdown() -> (r: Result<(), CaptureError>)
    ensures
        r is Ok,
{
    Ok(())
}

} // verus!
