use vstd::prelude::*;

use crate::event::{Key, WindowEvent};

verus! {

/// A discrete camera translation asked for by a movement key.
#[derive(Clone, Copy, Debug, PartialEq, Eq, Structural)]
pub enum Motion {
    Forward,
    Backward,
    StrafeRight,
    StrafeLeft,
}

/// The camera vector a motion follows.
#[derive(Clone, Copy, Debug, PartialEq, Eq, Structural)]
pub enum Axis {
    /// The facing direction.
    Direction,
    /// The level right vector, `direction x world-up`.
    Right,
}

/// The motion that a window event asks for: a press of W, S, D or A moves
/// forward, backward, right or left; nothing else moves the camera.
pub open spec fn motion_of(event: WindowEvent) -> Option<Motion> {
    match event {
        WindowEvent::KeyPressed { key: Some(Key::W) } => Some(Motion::Forward),
        WindowEvent::KeyPressed { key: Some(Key::S) } => Some(Motion::Backward),
        WindowEvent::KeyPressed { key: Some(Key::D) } => Some(Motion::StrafeRight),
        WindowEvent::KeyPressed { key: Some(Key::A) } => Some(Motion::StrafeLeft),
        _ => None,
    }
}

pub fn motion_for(event: &WindowEvent) -> (r: Option<Motion>)
    ensures
        r == motion_of(*event),
{
    match *event {
        WindowEvent::KeyPressed { key: Some(Key::W) } => Some(Motion::Forward),
        WindowEvent::KeyPressed { key: Some(Key::S) } => Some(Motion::Backward),
        WindowEvent::KeyPressed { key: Some(Key::D) } => Some(Motion::StrafeRight),
        WindowEvent::KeyPressed { key: Some(Key::A) } => Some(Motion::StrafeLeft),
        _ => None,
    }
}

impl Motion {
    /// The camera vector this motion moves along.
    pub fn axis(&self) -> (r: Axis)
        ensures
            r == (match *self {
                Motion::Forward | Motion::Backward => Axis::Direction,
                Motion::StrafeRight | Motion::StrafeLeft => Axis::Right,
            }),
    {
        match *self {
            Motion::Forward | Motion::Backward => Axis::Direction,
            Motion::StrafeRight | Motion::StrafeLeft => Axis::Right,
        }
    }

    /// +1 to move along the axis, -1 to move against it.
    pub fn sign(&self) -> (r: i8)
        ensures
            r == (match *self {
                Motion::Forward | Motion::StrafeRight => 1i8,
                Motion::Backward | Motion::StrafeLeft => -1i8,
            }),
    {
        match *self {
            Motion::Forward | Motion::StrafeRight => 1,
            Motion::Backward | Motion::StrafeLeft => -1,
        }
    }
}

} // verus!
