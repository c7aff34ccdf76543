use vstd::prelude::*;

use crate::event::WindowEvent;

verus! {

/// Mirrors the current window dimensions in device pixels.
pub struct WindowInfoTracker {
    pub width: u32,
    pub height: u32,
}

impl WindowInfoTracker {
    /// Starts from the window's inner size at creation time.
    pub fn new(width: u32, height: u32) -> (r: Self)
        ensures
            r.width == width,
            r.height == height,
    {
        Self { width, height }
    }

    /// Takes the new size from a resize event; every other event leaves the
    /// tracker as it was.
    pub fn on_window_event(&mut self, event: &WindowEvent)
        ensures
            match *event {
                WindowEvent::Resized { width, height } => final(self).width == width
                    && final(self).height == height,
                _ => *final(self) == *old(self),
            },
    {
        if let WindowEvent::Resized { width, height } = *event {
            self.width = width;
            self.height = height;
        }
    }
}

} // verus!
