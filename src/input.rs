//! Keyboard input mapped to named intents: camera movement, throwing the ball
//! and putting it back to sleep.
use vstd::prelude::*;

verus! {

/// The keys the scene responds to; every other key is `Other`.
#[derive(Clone, Copy, Debug, PartialEq, Eq, Structural)]
pub enum Key {
    KeyW,
    KeyS,
    KeyA,
    KeyD,
    ArrowUp,
    ArrowDown,
    ArrowLeft,
    ArrowRight,
    Space,
    ShiftLeft,
    KeyE,
    KeyV,
    Other,
}

/// A direction of camera movement.
#[derive(Clone, Copy, Debug, PartialEq, Eq, Structural)]
pub enum MoveAxis {
    Forward,
    Backward,
    Left,
    Right,
    Up,
    Down,
}

/// What a key event asks for.
#[derive(Clone, Copy, Debug, PartialEq, Eq, Structural)]
pub enum Command {
    /// Start (`active`) or stop moving the camera along `axis`.
    Move { axis: MoveAxis, active: bool },
    /// Throw the ball along the camera's look direction.
    ThrowBall,
    /// Put the ball back to sleep.
    ResetBall,
}

/// The command of a key event; `None` for a key the scene ignores. Movement
/// keys start moving on a press and stop on a release; the throw and reset
/// keys act on either.
pub open spec fn command_for(key: Key, pressed: bool) -> Option<Command> {
    match key {
        Key::KeyW | Key::ArrowUp => Some(Command::Move { axis: MoveAxis::Forward, active: pressed }),
        Key::KeyS | Key::ArrowDown => Some(Command::Move { axis: MoveAxis::Backward, active: pressed }),
        Key::KeyA | Key::ArrowLeft => Some(Command::Move { axis: MoveAxis::Left, active: pressed }),
        Key::KeyD | Key::ArrowRight => Some(Command::Move { axis: MoveAxis::Right, active: pressed }),
        Key::Space => Some(Command::Move { axis: MoveAxis::Up, active: pressed }),
        Key::ShiftLeft => Some(Command::Move { axis: MoveAxis::Down, active: pressed }),
        Key::KeyE => Some(Command::ThrowBall),
        Key::KeyV => Some(Command::ResetBall),
        Key::Other => None,
    }
}

/// Maps a key event to its command; `None` means the event was not handled.
pub fn process_keyboard(key: Key, pressed: bool) -> (r: Option<Command>)
    ensures
        r == command_for(key, pressed),
{
    match key {
        Key::KeyW | Key::ArrowUp => Some(Command::Move { axis: MoveAxis::Forward, active: pressed }),
        Key::KeyS | Key::ArrowDown => Some(Command::Move { axis: MoveAxis::Backward, active: pressed }),
        Key::KeyA | Key::ArrowLeft => Some(Command::Move { axis: MoveAxis::Left, active: pressed }),
        Key::KeyD | Key::ArrowRight => Some(Command::Move { axis: MoveAxis::Right, active: pressed }),
        Key::Space => Some(Command::Move { axis: MoveAxis::Up, active: pressed }),
        Key::ShiftLeft => Some(Command::Move { axis: MoveAxis::Down, active: pressed }),
        Key::KeyE => Some(Command::ThrowBall),
        Key::KeyV => Some(Command::ResetBall),
        Key::Other => None,
    }
}

/// Which movement directions are held, one flag per direction.
#[derive(Clone, Copy, Debug, PartialEq, Eq, Structural)]
pub struct MovementIntents {
    pub forward: bool,
    pub backward: bool,
    pub left: bool,
    pub right: bool,
    pub up: bool,
    pub down: bool,
}

/// The flags with the one of `axis` set to `active`.
pub open spec fn with_axis(m: MovementIntents, axis: MoveAxis, active: bool) -> MovementIntents {
    match axis {
        MoveAxis::Forward => MovementIntents { forward: active, ..m },
        MoveAxis::Backward => MovementIntents { backward: active, ..m },
        MoveAxis::Left => MovementIntents { left: active, ..m },
        MoveAxis::Right => MovementIntents { right: active, ..m },
        MoveAxis::Up => MovementIntents { up: active, ..m },
        MoveAxis::Down => MovementIntents { down: active, ..m },
    }
}

/// 1 for a held flag, 0 otherwise.
pub open spec fn unit(b: bool) -> int {
    if b { 1 } else { 0 }
}

impl MovementIntents {
    /// No direction held.
    pub fn new() -> (r: Self)
        ensures
            !r.forward && !r.backward && !r.left && !r.right && !r.up && !r.down,
    {
        MovementIntents { forward: false, backward: false, left: false, right: false, up: false, down: false }
    }

    /// Sets the flag of `axis`.
    pub fn set(&mut self, axis: MoveAxis, active: bool)
        ensures
            *final(self) == with_axis(*old(self), axis, active),
    {
        match axis {
            MoveAxis::Forward => self.forward = active,
            MoveAxis::Backward => self.backward = active,
            MoveAxis::Left => self.left = active,
            MoveAxis::Right => self.right = active,
            MoveAxis::Up => self.up = active,
            MoveAxis::Down => self.down = active,
        }
    }

    /// The unit-speed intent vector in camera space, as (right, up, forward):
    /// each component is 1, 0 or -1, and opposite flags cancel.
    pub fn direction(&self) -> (r: (i8, i8, i8))
        ensures
            r.0 == unit(self.right) - unit(self.left),
            r.1 == unit(self.up) - unit(self.down),
            r.2 == unit(self.forward) - unit(self.backward),
    {
        (axis_value(self.right, self.left), axis_value(self.up, self.down), axis_value(self.forward, self.backward))
    }
}

fn axis_value(plus: bool, minus: bool) -> (r: i8)
    ensures
        r == unit(plus) - unit(minus),
{
    let p: i8 = if plus { 1 } else { 0 };
    let m: i8 = if minus { 1 } else { 0 };
    p - m
}

} // verus!
