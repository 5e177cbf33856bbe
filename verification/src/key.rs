//! Physical key presses and the logical keys the menu engine understands.

use vstd::prelude::*;

verus! {

/// A key as the terminal reports it, reduced to what the engine tells apart.
#[derive(Clone, Copy, Debug, PartialEq, Eq, Structural)]
pub enum KeyPress {
    Up,
    Down,
    Left,
    Right,
    Enter,
    Esc,
    Backspace,
    Char(char),
    Other,
}

/// A logical key: what a key press means to the menu. A character key
/// carries its text in lower case, so that hotkeys match whatever the case
/// of the key pressed.
#[derive(Debug, PartialEq, Eq)]
pub enum Key {
    Up,
    Down,
    Enter,
    Back,
    Exit,
    Char(String),
}

/// The mathematical content of a `Key`.
pub enum Stroke {
    Up,
    Down,
    Enter,
    Back,
    Exit,
    Char(Seq<char>),
}

impl View for Key {
    type V = Stroke;

    open spec fn view(&self) -> Stroke {
        match *self {
            Key::Up => Stroke::Up,
            Key::Down => Stroke::Down,
            Key::Enter => Stroke::Enter,
            Key::Back => Stroke::Back,
            Key::Exit => Stroke::Exit,
            Key::Char(text) => Stroke::Char(text@),
        }
    }
}

/// The lower-case form of the one-character string that holds `c`, as
/// `str::to_lowercase` gives it. It may hold more than one character.
pub uninterp spec fn lowercased(c: char) -> Seq<char>;

/// The upper-case form of the one-character string that holds `c`, as
/// `str::to_uppercase` gives it. It may hold more than one character.
pub uninterp spec fn uppercased(c: char) -> Seq<char>;

/// Calls `str::to_lowercase` on the one-character string that holds `c`.
/// Nothing is proved of the result: the contract only gives it its name.
#[verifier::external_body]
pub(crate) fn lowercase(c: char) -> (text: String)
    ensures
        text@ == lowercased(c),
{
    c.to_string().to_lowercase()
}

/// Calls `str::to_uppercase` on the one-character string that holds `c`.
/// Nothing is proved of the result: the contract only gives it its name.
#[verifier::external_body]
pub(crate) fn uppercase(c: char) -> (text: String)
    ensures
        text@ == uppercased(c),
{
    c.to_string().to_uppercase()
}

/// The logical key that a key press stands for, if it stands for any.
pub open spec fn key_of(press: KeyPress) -> Option<Stroke> {
    match press {
        KeyPress::Up => Some(Stroke::Up),
        KeyPress::Down => Some(Stroke::Down),
        KeyPress::Enter | KeyPress::Right => Some(Stroke::Enter),
        KeyPress::Esc => Some(Stroke::Exit),
        KeyPress::Backspace | KeyPress::Left => Some(Stroke::Back),
        KeyPress::Char(c) => Some(Stroke::Char(lowercased(c))),
        KeyPress::Other => None,
    }
}

/// The content of an optional key.
pub open spec fn stroke_of(key: Option<Key>) -> Option<Stroke> {
    match key {
        Some(key) => Some(key@),
        None => None,
    }
}

/// Maps a key press to its logical key. `Right` activates like `Enter`,
/// `Left` goes back like `Backspace`, a character is put in lower case, and
/// a press the menu has no use for gives `None`.
pub fn match_keycode(press: KeyPress) -> (key: Option<Key>)
    ensures
        stroke_of(key) == key_of(press),
{
    match press {
        KeyPress::Up => Some(Key::Up),
        KeyPress::Down => Some(Key::Down),
        KeyPress::Enter | KeyPress::Right => Some(Key::Enter),
        KeyPress::Esc => Some(Key::Exit),
        KeyPress::Backspace | KeyPress::Left => Some(Key::Back),
        KeyPress::Char(c) => Some(Key::Char(lowercase(c))),
        KeyPress::Other => None,
    }
}

} // verus!
