//! Configuration of the ground station's window. The event and render loop
//! lives in the presentation layer; the fixed parameters it runs with are
//! held here.

use vstd::prelude::*;

verus! {

/// Window dimensions and the frame rate the render loop maintains.
pub struct UI {
    width: u32,
    height: u32,
    fps: u32,
}

impl UI {
    /// A window of the given dimensions, rendered at 60 frames per second.
    pub fn new(width: u32, height: u32) -> (ui: UI)
        ensures
            ui.width_spec() == width,
            ui.height_spec() == height,
            ui.fps_spec() == 60,
    {
        UI { width, height, fps: 60 }
    }

    /// Window width in pixels.
    pub closed spec fn width_spec(&self) -> u32 {
        self.width
    }

    /// Window width in pixels.
    pub fn width(&self) -> (r: u32)
        ensures
            r == self.width_spec(),
    {
        self.width
    }

    /// Window height in pixels.
    pub closed spec fn height_spec(&self) -> u32 {
        self.height
    }

    /// Window height in pixels.
    pub fn height(&self) -> (r: u32)
        ensures
            r == self.height_spec(),
    {
        self.height
    }

    /// The frame rate the render loop maintains.
    pub closed spec fn fps_spec(&self) -> u32 {
        self.fps
    }

    /// The frame rate the render loop maintains.
    pub fn fps(&self) -> (r: u32)
        ensures
            r == self.fps_spec(),
    {
        self.fps
    }
}

} // verus!
