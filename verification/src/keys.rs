//! Input events, and the few keys that the modes tell apart.

use crossterm::event::{Event, KeyCode, KeyEvent, KeyEventKind};
use vstd::prelude::*;

verus! {

/// `crossterm::event::Event`: what the terminal reports, taken as it is.
#[verifier::external_type_specification]
#[verifier::external_body]
pub struct ExEvent(Event);

/// A key, as far as the modes tell keys apart.
#[derive(Clone, Copy, Debug, PartialEq, Eq, Structural)]
pub enum Key {
    Esc,
    Enter,
    Tab,
    Insert,
    Up,
    Down,
    Left,
    Right,
    Char(char),
    Other,
}

/// The key whose press `ev` reports; `None` where `ev` reports anything else.
pub uninterp spec fn pressed_key(ev: Event) -> Option<Key>;

/// Reads which key an event reports the press of: `None` unless the event
/// is an `Event::Key` of the kind `KeyEventKind::Press`; then the key that
/// stands for its `KeyCode`, with `Key::Other` for each code that has no
/// variant of its own.
#[verifier::external_body]
pub(crate) fn decode(ev: &Event) -> (key: Option<Key>)
    ensures
        key == pressed_key(*ev),
{
    match ev {
        Event::Key(KeyEvent { code, kind: KeyEventKind::Press, .. }) => Some(match code {
            KeyCode::Esc => Key::Esc,
            KeyCode::Enter => Key::Enter,
            KeyCode::Tab => Key::Tab,
            KeyCode::Insert => Key::Insert,
            KeyCode::Up => Key::Up,
            KeyCode::Down => Key::Down,
            KeyCode::Left => Key::Left,
            KeyCode::Right => Key::Right,
            KeyCode::Char(c) => Key::Char(*c),
            _ => Key::Other,
        }),
        _ => None,
    }
}

} // verus!
