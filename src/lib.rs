//! Core of a small real-time rendering host: the window-size tracker, the
//! frame clock, the ordered plugin registry with its per-frame step plan, the
//! mapping from movement keys to camera motions, and a type-indexed locator.
//!
//! Everything that touches the graphics context, the window system or
//! floating-point camera math lives in the binary around this library.

pub mod event;
pub mod window_info_tracker;
pub mod clock;
pub mod controls;
pub mod host;
pub mod locator;
