//! Window-level plain data: event parameters, cursor kinds, joystick,
//! mouse buttons and window style flags.

use crate::vector::{Vector2i, Vector2u};
use vstd::prelude::*;

verus! {

/// The native system cursor kinds.
#[derive(Debug, Clone, Copy, PartialEq, Eq, Structural)]
pub enum Type {
    /// Arrow cursor (default)
    Arrow,
    /// Busy arrow cursor
    ArrowWait,
    /// Busy cursor
    Wait,
    /// I-beam, shown over a field allowing text entry
    Text,
    /// Pointing hand cursor
    Hand,
    /// Horizontal double arrow cursor
    SizeHorizontal,
    /// Vertical double arrow cursor
    SizeVertical,
    /// Double arrow cursor going from top-left to bottom-right
    SizeTopLeftBottomRight,
    /// Double arrow cursor going from bottom-left to top-right
    SizeBottomLeftTopRight,
    /// Left arrow cursor
    SizeLeft,
    /// Right arrow cursor
    SizeRight,
    /// Up arrow cursor
    SizeTop,
    /// Down arrow cursor
    SizeBottom,
    /// Top-left arrow cursor
    SizeTopLeft,
    /// Bottom-right arrow cursor
    SizeBottomRight,
    /// Bottom-left arrow cursor
    SizeBottomLeft,
    /// Top-right arrow cursor
    SizeTopRight,
    /// Combination of the horizontal and vertical size cursors
    SizeAll,
    /// Crosshair cursor
    Cross,
    /// Help cursor
    Help,
    /// Action-not-allowed cursor
    NotAllowed,
}

/// What can go wrong when translating a native event.
#[derive(Debug, Clone, Copy, PartialEq, Eq, Structural)]
pub enum EventError {
    /// The native event type is not translated; its raw code is kept.
    Unimplemented(u32),
}

/// Parameters of a window resize event.
#[derive(Debug, Clone, Copy, PartialEq, Eq)]
pub struct SizeEvent {
    pub size: Vector2u,
}

/// Parameters of a text-entered event: the Unicode scalar value typed.
#[derive(Debug, Clone, Copy, PartialEq, Eq)]
pub struct TextEvent {
    pub unicode: u32,
}

/// Parameters of a mouse move event.
#[derive(Debug, Clone, Copy, PartialEq, Eq)]
pub struct MouseMoveEvent {
    pub pos: Vector2i,
}

/// Parameters of a mouse wheel movement event.
#[derive(Debug, Clone, Copy, PartialEq, Eq, Structural)]
pub struct MouseWheelEvent {
    pub delta: i32,
    pub x: i32,
    pub y: i32,
}

/// Parameters of a joystick button event.
#[derive(Debug, Clone, Copy, PartialEq, Eq, Structural)]
pub struct JoystickButtonEvent {
    pub joystick_id: u32,
    pub button: u32,
}

/// Parameters of a joystick connection or disconnection event.
#[derive(Debug, Clone, Copy, PartialEq, Eq, Structural)]
pub struct JoystickConnectEvent {
    pub joystick_id: u32,
}

/// Parameters of a touch event.
#[derive(Debug, Clone, Copy, PartialEq, Eq)]
pub struct TouchEvent {
    pub finger: u32,
    pub pos: Vector2i,
}

/// How many joysticks the toolkit tracks.
pub const MAX_JOYSTICK_COUNT: u32 = 8;

/// How many buttons one joystick can have.
pub const MAX_BUTTON_COUNT: u32 = 32;

/// How many axes one joystick can have.
pub const MAX_AXIS_COUNT: u32 = 8;

/// A joystick axis.
#[derive(Debug, Clone, Copy, PartialEq, Eq, Structural)]
pub enum Axis {
    X,
    Y,
    Z,
    R,
    U,
    V,
    PovX,
    PovY,
}

/// A joystick, named by its number.
#[derive(Debug, Clone, Copy, PartialEq, Eq, Structural)]
pub struct Joystick {
    joystick_number: u32,
}

impl Joystick {
    /// The joystick's number.
    pub closed spec fn number(&self) -> u32 {
        self.joystick_number
    }

    /// Names the joystick with the given number where the input subsystem
    /// reports it connected, and `None` where it does not.
    pub fn get(joystick: u32, connected: bool) -> (r: Option<Self>)
        requires
            joystick < MAX_JOYSTICK_COUNT,
        ensures
            r is Some <==> connected,
            r matches Some(j) ==> j.number() == joystick,
    {
        if connected {
            Some(Self { joystick_number: joystick })
        } else {
            None
        }
    }
}

/// A mouse button.
#[derive(Debug, Clone, Copy, PartialEq, Eq, Structural)]
pub enum Button {
    Left,
    Right,
    Middle,
    XButton1,
    XButton2,
}

/// A mouse wheel.
#[derive(Debug, Clone, Copy, PartialEq, Eq, Structural)]
pub enum Wheel {
    Vertical,
    Horizontal,
}

/// Window style flags, combined by bitwise or.
pub struct Style;

impl Style {
    /// No decoration.
    pub const NONE: u32 = 0;

    /// The window has a title bar.
    pub const TITLEBAR: u32 = 1;

    /// The window can be resized.
    pub const RESIZE: u32 = 2;

    /// The window has a close button.
    pub const CLOSE: u32 = 4;

    /// The window fills the screen.
    pub const FULLSCREEN: u32 = 8;

    /// The default window style: title bar, resizable, closable.
    pub const DEFAULT_STYLE: u32 = Self::TITLEBAR | Self::RESIZE | Self::CLOSE;
}

} // verus!
