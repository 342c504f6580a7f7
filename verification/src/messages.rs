//! What the model can be told to do, and which key tells it what.

use crate::keys::{decode, pressed_key, Key};
use crate::model::{Mode, Model};
use crate::text::is_digit;
use crossterm::event::Event;
use vstd::prelude::*;

verus! {

/// The way a selection moves.
#[derive(Clone, Copy, Debug, PartialEq, Eq, Structural)]
pub enum MoveDirection {
    Up,
    Down,
    Left,
    Right,
}

/// What the model can be told to do.
#[derive(Debug)]
pub enum Message {
    /// Forget the repeat count typed so far.
    ClearCommand,
    /// Take one more character of the repeat count.
    AppendMovement(char),
    /// Move the selection of the mode.
    MoveDirection(MoveDirection),
    /// Hand an event to the tag form.
    PropagateEvent(Event),
    /// Advance the tag form.
    NextField,
    /// Attach the selected tag to the selected mod.
    InsertTag,
    /// Enter a mode.
    ChangeMode(Mode),
    /// End the session.
    Exit,
}

/// The way that `key` moves a selection, if it is a movement key: an arrow,
/// or one of `h`, `j`, `k`, `l`.
pub open spec fn movement(key: Key) -> Option<MoveDirection> {
    if key == Key::Up || key == Key::Char('k') {
        Some(MoveDirection::Up)
    } else if key == Key::Down || key == Key::Char('j') {
        Some(MoveDirection::Down)
    } else if key == Key::Left || key == Key::Char('h') {
        Some(MoveDirection::Left)
    } else if key == Key::Right || key == Key::Char('l') {
        Some(MoveDirection::Right)
    } else {
        None
    }
}

/// What a press of `key` asks for while mods are browsed.
pub open spec fn normal_message(key: Key) -> Option<Message> {
    match key {
        Key::Esc => Some(Message::ClearCommand),
        Key::Char(c) if is_digit(c) => Some(Message::AppendMovement(c)),
        Key::Char('q') => Some(Message::Exit),
        Key::Char('T') => Some(Message::ChangeMode(Mode::CreateTag)),
        Key::Char('t') => Some(Message::ChangeMode(Mode::ShowTags)),
        Key::Char('i') => Some(Message::ChangeMode(Mode::Insert)),
        _ => match movement(key) {
            Some(direction) => Some(Message::MoveDirection(direction)),
            None => None,
        },
    }
}

/// What a press of `key` asks for while a tag is created; `ev` is the event
/// that reported it.
pub open spec fn create_tag_message(key: Key, ev: Event) -> Option<Message> {
    match key {
        Key::Esc => Some(Message::ChangeMode(Mode::Normal)),
        Key::Insert | Key::Tab | Key::Enter => Some(Message::NextField),
        _ => Some(Message::PropagateEvent(ev)),
    }
}

/// What a press of `key` asks for while the tags are listed.
pub open spec fn show_tags_message(key: Key) -> Option<Message> {
    match key {
        Key::Esc => Some(Message::ChangeMode(Mode::Normal)),
        _ => None,
    }
}

/// What a press of `key` asks for while a tag is picked for a mod.
pub open spec fn insert_message(key: Key) -> Option<Message> {
    match key {
        Key::Esc | Key::Char('q') => Some(Message::ChangeMode(Mode::Normal)),
        Key::Enter => Some(Message::InsertTag),
        Key::Char(c) if is_digit(c) => Some(Message::AppendMovement(c)),
        _ => match movement(key) {
            Some(direction) => Some(Message::MoveDirection(direction)),
            None => None,
        },
    }
}

/// What an event asks for in a mode, `key` being the key whose press the
/// event reports: nothing unless the event is the press of a key, and then
/// what the mode makes of that key.
pub open spec fn message_for(mode: Mode, key: Option<Key>, ev: Event) -> Option<Message> {
    match key {
        None => None,
        Some(key) => match mode {
            Mode::Normal => normal_message(key),
            Mode::CreateTag => create_tag_message(key, ev),
            Mode::ShowTags => show_tags_message(key),
            Mode::Insert => insert_message(key),
        },
    }
}

/// What an event asks of the model, in the mode that the model is in.
pub fn try_message(model: &Model, ev: Event) -> (message: Option<Message>)
    ensures
        message == message_for(model.mode(), pressed_key(ev), ev),
{
    let key = decode(&ev);
    translate(model.mode(), key, ev)
}

/// What an event asks for in a mode, `key` being the key whose press the
/// event reports.
pub fn translate(mode: Mode, key: Option<Key>, ev: Event) -> (message: Option<Message>)
    ensures
        message == message_for(mode, key, ev),
{
    match key {
        Some(key) => match mode {
            Mode::Normal => normal_key_press(key),
            Mode::CreateTag => {
                let res = match key {
                    Key::Esc => Message::ChangeMode(Mode::Normal),
                    Key::Insert | Key::Tab | Key::Enter => Message::NextField,
                    _ => Message::PropagateEvent(ev),
                };
                Some(res)
            },
            Mode::ShowTags => show_tags_key_press(key),
            Mode::Insert => insert_key_press(key),
        },
        None => None,
    }
}

/// Whether `c` is one of the ten decimal digits.
fn is_ascii_digit(c: char) -> (digit: bool)
    ensures
        digit == is_digit(c),
{
    '0' <= c && c <= '9'
}

/// The way that `key` moves a selection, if it is a movement key.
fn movement_of(key: Key) -> (direction: Option<MoveDirection>)
    ensures
        direction == movement(key),
{
    match key {
        Key::Char('k') | Key::Up => Some(MoveDirection::Up),
        Key::Char('j') | Key::Down => Some(MoveDirection::Down),
        Key::Char('h') | Key::Left => Some(MoveDirection::Left),
        Key::Char('l') | Key::Right => Some(MoveDirection::Right),
        _ => None,
    }
}

fn normal_key_press(key: Key) -> (message: Option<Message>)
    ensures
        message == normal_message(key),
{
    let res = match key {
        Key::Esc => Message::ClearCommand,
        Key::Char(c) if is_ascii_digit(c) => Message::AppendMovement(c),
        Key::Char('q') => Message::Exit,
        Key::Char('T') => Message::ChangeMode(Mode::CreateTag),
        Key::Char('t') => Message::ChangeMode(Mode::ShowTags),
        Key::Char('i') => Message::ChangeMode(Mode::Insert),
        _ => match movement_of(key) {
            Some(direction) => Message::MoveDirection(direction),
            None => return None,
        },
    };
    Some(res)
}

fn show_tags_key_press(key: Key) -> (message: Option<Message>)
    ensures
        message == show_tags_message(key),
{
    let res = match key {
        Key::Esc => Message::ChangeMode(Mode::Normal),
        _ => return None,
    };
    Some(res)
}

fn insert_key_press(key: Key) -> (message: Option<Message>)
    ensures
        message == insert_message(key),
{
    let res = match key {
        Key::Esc | Key::Char('q') => Message::ChangeMode(Mode::Normal),
        Key::Enter => Message::InsertTag,
        Key::Char(c) if is_ascii_digit(c) => Message::AppendMovement(c),
        _ => match movement_of(key) {
            Some(direction) => Message::MoveDirection(direction),
            None => return None,
        },
    };
    Some(res)
}

} // verus!
