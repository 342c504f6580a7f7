//! The line that is being edited: an `Input` of the editing library, and
//! what the form needs to know of it.

use crossterm::event::Event;
use tui_input::backend::crossterm::EventHandler;
use tui_input::Input;
use vstd::prelude::*;

verus! {

/// `tui_input::Input`: a line of text with a cursor, taken as it is.
#[verifier::external_type_specification]
#[verifier::external_body]
pub struct ExInput(Input);

/// The text that the buffer holds.
pub uninterp spec fn buffer_text(buffer: Input) -> Seq<char>;

/// The text that the buffer holds after `Input::handle_event` has let it
/// react to `ev`.
pub uninterp spec fn edited_text(buffer: Input, ev: Event) -> Seq<char>;

/// An empty buffer, as `Input::default` makes it.
#[verifier::external_body]
pub(crate) fn new_buffer() -> (buffer: Input)
    ensures
        buffer_text(buffer) == Seq::<char>::empty(),
{
    Input::default()
}

/// The text of the buffer, as `Input::value` hands it out.
#[verifier::external_body]
pub(crate) fn buffer_value(buffer: &Input) -> (text: &str)
    ensures
        text@ == buffer_text(*buffer),
{
    buffer.value()
}

/// Lets the buffer react to an event with `Input::handle_event`: it may
/// insert or delete text or move its cursor. The text that results goes by
/// the buffer and the event alone.
#[verifier::external_body]
pub(crate) fn edit_buffer(buffer: &mut Input, ev: &Event)
    ensures
        buffer_text(*final(buffer)) == edited_text(*old(buffer), *ev),
{
    buffer.handle_event(ev);
}

/// A copy of the buffer that holds `value` in place of its text, made with
/// `Input::with_value`.
#[verifier::external_body]
pub(crate) fn buffer_with_value(buffer: &Input, value: String) -> (filled: Input)
    ensures
        buffer_text(filled) == value@,
{
    buffer.clone().with_value(value)
}

/// Empties the buffer with `Input::value_and_reset`.
#[verifier::external_body]
pub(crate) fn clear_buffer(buffer: &mut Input)
    ensures
        buffer_text(*final(buffer)) == Seq::<char>::empty(),
{
    buffer.value_and_reset();
}

} // verus!
