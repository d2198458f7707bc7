use vstd::prelude::*;

verus! {

/// The size in pixels of the surface the renderer draws to.
#[derive(Copy, Clone, Debug, PartialEq, Eq)]
pub struct SurfaceExtent {
    pub width: u32,
    pub height: u32,
}

/// The extent the surface is first configured with for a window of the
/// given size: each side at least one pixel.
pub fn initial_extent(width: u32, height: u32) -> (extent: SurfaceExtent)
    ensures
        extent.width == if width == 0 { 1 } else { width },
        extent.height == if height == 0 { 1 } else { height },
{
    SurfaceExtent {
        width: if width > 1 { width } else { 1 },
        height: if height > 1 { height } else { 1 },
    }
}

/// The extent to reconfigure the surface with when the window is resized,
/// or `None` when the new size has an empty side and the surface is left
/// as it is.
pub fn resize_extent(width: u32, height: u32) -> (extent: Option<SurfaceExtent>)
    ensures
        width > 0 && height > 0 ==> extent == Some(SurfaceExtent { width, height }),
        !(width > 0 && height > 0) ==> extent is None,
{
    if width > 0 && height > 0 {
        Some(SurfaceExtent { width, height })
    } else {
        None
    }
}

/// What came of asking the surface for the next frame.
#[derive(Copy, Clone, Debug, PartialEq, Eq)]
pub enum FrameStatus {
    Acquired,
    Timeout,
    Outdated,
    Lost,
    OutOfMemory,
    Other,
}

/// What the renderer does with that.
#[derive(Copy, Clone, Debug, PartialEq, Eq)]
pub enum FrameAction {
    /// Draw the frame and present it.
    Draw,
    /// Configure the surface again and skip the frame.
    Reconfigure,
    /// Report the error and skip the frame.
    ReportAndSkip,
}

/// Decides what to do with the outcome of asking for a frame: draw an
/// acquired one, configure a lost or outdated surface again, and report any
/// other error.
pub fn frame_action(status: FrameStatus) -> (action: FrameAction)
    ensures
        status == FrameStatus::Acquired ==> action == FrameAction::Draw,
        (status == FrameStatus::Lost || status == FrameStatus::Outdated) ==> action
            == FrameAction::Reconfigure,
        (status == FrameStatus::Timeout || status == FrameStatus::OutOfMemory || status
            == FrameStatus::Other) ==> action == FrameAction::ReportAndSkip,
{
    match status {
        FrameStatus::Acquired => FrameAction::Draw,
        FrameStatus::Lost | FrameStatus::Outdated => FrameAction::Reconfigure,
        _ => FrameAction::ReportAndSkip,
    }
}

} // verus!
