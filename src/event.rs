use vstd::prelude::*;

verus! {

/// Logical key codes that the host cares about.
#[derive(Clone, Copy, Debug, PartialEq, Eq, Structural)]
pub enum Key {
    W,
    A,
    S,
    D,
    /// Any other key.
    Other,
}

/// A window-system event, as handed over by the platform layer.
#[derive(Clone, Copy, Debug, PartialEq, Eq, Structural)]
pub enum WindowEvent {
    /// The user asked to close the window.
    CloseRequested,
    /// The drawable area changed to `width` x `height` device pixels.
    Resized { width: u32, height: u32 },
    /// A key was pressed; `None` when the platform reported no logical code.
    KeyPressed { key: Option<Key> },
    /// A key was released.
    KeyReleased { key: Option<Key> },
    /// Anything else (focus, cursor enter/leave, ...).
    Other,
}

} // verus!
