use vstd::prelude::*;

verus! {

/// The size a surface is configured with for a window of `width` by `height` pixels: a
/// surface is never narrower or lower than one pixel.
pub open spec fn spec_surface_size(width: u32, height: u32) -> (u32, u32) {
    (if width < 1 { 1 } else { width }, if height < 1 { 1 } else { height })
}

pub fn surface_size(width: u32, height: u32) -> (res: (u32, u32))
    ensures
        res == spec_surface_size(width, height),
{
    let w = if width < 1 { 1 } else { width };
    let h = if height < 1 { 1 } else { height };
    (w, h)
}

/// The new surface size after the window was resized to `width` by `height`: none when
/// either side is zero (a minimised window), which leaves the surface as it was.
pub fn resized_size(width: u32, height: u32) -> (res: Option<(u32, u32)>)
    ensures
        res == (if width > 0 && height > 0 { Some((width, height)) } else { None::<(u32, u32)> }),
{
    if width > 0 && height > 0 {
        Some((width, height))
    } else {
        None
    }
}

/// Why the next frame of the surface could not be had.
#[derive(Debug, Clone, Copy, PartialEq, Eq, Structural)]
pub enum FrameError {
    Lost,
    Outdated,
    OutOfMemory,
    Timeout,
}

/// What the render loop does next.
#[derive(Debug, Clone, Copy, PartialEq, Eq, Structural)]
pub enum FrameAction {
    /// Configure the surface again and wait for the next frame.
    Reconfigure,
    /// Leave the event loop.
    Exit,
    /// Wait for the next frame.
    Skip,
}

pub open spec fn spec_frame_error_action(e: FrameError) -> FrameAction {
    match e {
        FrameError::Lost | FrameError::Outdated => FrameAction::Reconfigure,
        FrameError::OutOfMemory => FrameAction::Exit,
        FrameError::Timeout => FrameAction::Skip,
    }
}

/// A lost or outdated surface is configured again, running out of memory ends the loop,
/// and a timeout skips the frame.
pub fn frame_error_action(e: FrameError) -> (res: FrameAction)
    ensures
        res == spec_frame_error_action(e),
{
    match e {
        FrameError::Lost | FrameError::Outdated => FrameAction::Reconfigure,
        FrameError::OutOfMemory => FrameAction::Exit,
        FrameError::Timeout => FrameAction::Skip,
    }
}

} // verus!
