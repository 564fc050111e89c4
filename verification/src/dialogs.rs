//! The state behind the small pick-one dialogs (mouse move direction, scroll) and the
//! pending quick gamepad capture. Drawing them is left to the program around the
//! library, which reports the button that was clicked.

use vstd::prelude::*;
use crate::text::owned;

verus! {

/// A mouse move direction.
#[derive(Debug, Clone, Copy, PartialEq, Eq, Structural)]
pub enum MouseDirection {
    UpLeft,
    Up,
    UpRight,
    Left,
    Right,
    DownLeft,
    Down,
    DownRight,
}

/// The input name of a mouse move direction.
pub open spec fn direction_name(d: MouseDirection) -> Seq<char> {
    match d {
        MouseDirection::UpLeft => "MOUSE_UP_LEFT"@,
        MouseDirection::Up => "MOUSE_UP"@,
        MouseDirection::UpRight => "MOUSE_UP_RIGHT"@,
        MouseDirection::Left => "MOUSE_LEFT"@,
        MouseDirection::Right => "MOUSE_RIGHT"@,
        MouseDirection::DownLeft => "MOUSE_DOWN_LEFT"@,
        MouseDirection::Down => "MOUSE_DOWN"@,
        MouseDirection::DownRight => "MOUSE_DOWN_RIGHT"@,
    }
}

/// The input name of a mouse move direction.
pub fn direction_input_name(d: MouseDirection) -> (r: &'static str)
    ensures
        r@ == direction_name(d),
{
    match d {
        MouseDirection::UpLeft => "MOUSE_UP_LEFT",
        MouseDirection::Up => "MOUSE_UP",
        MouseDirection::UpRight => "MOUSE_UP_RIGHT",
        MouseDirection::Left => "MOUSE_LEFT",
        MouseDirection::Right => "MOUSE_RIGHT",
        MouseDirection::DownLeft => "MOUSE_DOWN_LEFT",
        MouseDirection::Down => "MOUSE_DOWN",
        MouseDirection::DownRight => "MOUSE_DOWN_RIGHT",
    }
}

/// The mouse direction picker.
#[derive(Debug)]
pub struct MouseDirectionDialog {
    selected_direction: Option<String>,
}

impl View for MouseDirectionDialog {
    type V = Option<Seq<char>>;

    closed spec fn view(&self) -> Option<Seq<char>> {
        match self.selected_direction {
            Some(s) => Some(s@),
            None => None,
        }
    }
}

impl MouseDirectionDialog {
    /// A dialog with nothing picked.
    pub fn new() -> (r: Self)
        ensures
            r@ is None,
    {
        MouseDirectionDialog { selected_direction: None }
    }

    /// The picked direction's input name, if one was picked.
    pub fn get_selected_direction(&self) -> (r: Option<String>)
        ensures
            match r {
                Some(s) => self@ == Some(s@),
                None => self@ is None,
            },
    {
        match &self.selected_direction {
            Some(s) => Some(owned(s.as_str())),
            None => None,
        }
    }

    /// A direction button was clicked: it is picked, and the dialog closes.
    pub fn pick(&mut self, d: MouseDirection) -> (close: bool)
        ensures
            final(self)@ == Some(direction_name(d)),
            close,
    {
        self.selected_direction = Some(owned(direction_input_name(d)));
        true
    }
}

/// A wheel or middle-button choice.
#[derive(Debug, Clone, Copy, PartialEq, Eq, Structural)]
pub enum ScrollChoice {
    Up,
    Middle,
    Down,
}

/// The input name of a wheel choice.
pub open spec fn scroll_name(c: ScrollChoice) -> Seq<char> {
    match c {
        ScrollChoice::Up => "SCROLL_UP"@,
        ScrollChoice::Middle => "MBUTTON"@,
        ScrollChoice::Down => "SCROLL_DOWN"@,
    }
}

/// The input name of a wheel choice.
pub fn scroll_input_name(c: ScrollChoice) -> (r: &'static str)
    ensures
        r@ == scroll_name(c),
{
    match c {
        ScrollChoice::Up => "SCROLL_UP",
        ScrollChoice::Middle => "MBUTTON",
        ScrollChoice::Down => "SCROLL_DOWN",
    }
}

/// The wheel picker.
#[derive(Debug)]
pub struct MouseScrollDialog {
    selected_direction: Option<String>,
}

impl View for MouseScrollDialog {
    type V = Option<Seq<char>>;

    closed spec fn view(&self) -> Option<Seq<char>> {
        match self.selected_direction {
            Some(s) => Some(s@),
            None => None,
        }
    }
}

impl MouseScrollDialog {
    /// A dialog with nothing picked.
    pub fn new() -> (r: Self)
        ensures
            r@ is None,
    {
        MouseScrollDialog { selected_direction: None }
    }

    /// The picked choice's input name, if one was picked.
    pub fn get_selected_direction(&self) -> (r: Option<String>)
        ensures
            match r {
                Some(s) => self@ == Some(s@),
                None => self@ is None,
            },
    {
        match &self.selected_direction {
            Some(s) => Some(owned(s.as_str())),
            None => None,
        }
    }

    /// A choice button was clicked: it is picked, and the dialog closes.
    pub fn pick(&mut self, c: ScrollChoice) -> (close: bool)
        ensures
            final(self)@ == Some(scroll_name(c)),
            close,
    {
        self.selected_direction = Some(owned(scroll_input_name(c)));
        true
    }
}

/// A gamepad capture waiting for confirmation, with the switches the confirmation bar
/// offers.
#[derive(Debug)]
pub struct QuickGamepadPending {
    /// The slot (its id).
    pub slot_id: usize,
    /// The capture is the slot's trigger (otherwise a target key).
    pub is_trigger: bool,
    /// The captured input's name.
    pub input: String,
    /// Repeat, written to the slot's mapping on confirmation.
    pub turbo: bool,
    /// Double tap, written on confirmation.
    pub double_tap: bool,
    /// Run (turns repeat and double tap off), written on confirmation.
    pub run: bool,
}

} // verus!
