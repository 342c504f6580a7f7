//! Forms that are filled in field by field.
//!
//! A [`FormSpec`] says which fields a form has and what each accepts. A
//! [`FormState`] walks through them: it holds the field that is being
//! edited, the line as typed so far, and what the earlier fields gave.

use crate::buffer::{
    buffer_text, buffer_value, buffer_with_value, clear_buffer, edit_buffer, edited_text, new_buffer,
};
use crate::color::{color_parsed, color_shown, parse_color, show_color};
use crate::keys::{decode, pressed_key, Key};
use crate::mods::tag::Tag;
use crate::text::{lemma_trimmed_len, parse_u64, parsed_u64, show_u64, shown_u64, trim, trimmed};
use crossterm::event::Event;
use ratatui::style::Color;
use tui_input::Input;
use vstd::prelude::*;

verus! {

/// What became of a field that was handed in.
#[derive(Debug, PartialEq, Eq)]
pub enum FormPoll<T> {
    /// The field was accepted; the next one is to be filled in.
    NextField,
    /// The field was refused; it is to be corrected.
    Invalid,
    /// The last field was accepted; the form is complete.
    Done(T),
}

/// Which of the three a poll is, whatever it carries.
pub open spec fn poll_kind<T>(poll: FormPoll<T>) -> FormPoll<()> {
    match poll {
        FormPoll::NextField => FormPoll::NextField,
        FormPoll::Invalid => FormPoll::Invalid,
        FormPoll::Done(_) => FormPoll::Done(()),
    }
}

/// The text of `stored`, and no text where there is none.
pub open spec fn text_or_empty(stored: Option<Seq<char>>) -> Seq<char> {
    match stored {
        Some(text) => text,
        None => Seq::empty(),
    }
}

/// The view of an optional string.
pub open spec fn text_of(text: Option<String>) -> Option<Seq<char>> {
    match text {
        Some(t) => Some(t@),
        None => None,
    }
}

/// The fields of a form, and what each of them accepts.
///
/// The view of an implementor is the draft: what the fields accepted so far
/// have given. The fields are numbered from 0 and filled in that order.
pub trait FormSpec: View + Sized {
    /// What a completed form yields.
    type Output;

    /// The number of fields.
    spec fn field_count() -> nat;

    /// Whether the draft holds all that the field `key` relies on.
    spec fn ready(draft: Self::V, key: usize) -> bool;

    /// What handing in `content` for the field `key` comes to.
    spec fn verdict(draft: Self::V, key: usize, content: Seq<char>) -> FormPoll<()>;

    /// The draft after `content` was handed in for the field `key`.
    spec fn accepted(draft: Self::V, key: usize, content: Seq<char>) -> Self::V;

    /// Whether `output` is what the draft yields when the form is complete.
    spec fn completes(draft: Self::V, output: Self::Output) -> bool;

    /// The text that the draft holds for the field `key`, to show it again.
    spec fn stored(draft: Self::V, key: usize) -> Option<Seq<char>>;

    /// The colour that marks the field being edited.
    spec fn highlight(draft: Self::V) -> Color;

    /// There is a first field, and it relies on nothing; and the fields can
    /// be counted in a `usize`.
    proof fn lemma_first_field(draft: Self::V)
        ensures
            0 < Self::field_count() <= usize::MAX,
            Self::ready(draft, 0),
    ;

    /// Handing in a field leaves the draft ready for that field. Where the
    /// verdict is that the next field is to be filled in, there is a next
    /// field, and the draft is ready for it.
    proof fn lemma_accepted_ready(draft: Self::V, key: usize, content: Seq<char>)
        requires
            Self::ready(draft, key),
        ensures
            Self::ready(Self::accepted(draft, key, content), key),
            Self::verdict(draft, key, content) is NextField ==> key + 1 < Self::field_count()
                && Self::ready(Self::accepted(draft, key, content), (key + 1) as usize),
    ;

    /// The prompts of the fields, in order.
    fn prompts() -> (prompts: Vec<&'static str>)
        ensures
            prompts@.len() == Self::field_count(),
    ;

    /// Hands in `content` for the field `key`.
    fn try_into_key(&mut self, key: usize, content: &str) -> (poll: FormPoll<Self::Output>)
        requires
            Self::ready(old(self)@, key),
        ensures
            final(self)@ == Self::accepted(old(self)@, key, content@),
            poll_kind(poll) == Self::verdict(old(self)@, key, content@),
            poll matches FormPoll::Done(output) ==> Self::completes(final(self)@, output),
    ;

    /// The text held for the field `key`, to show it again.
    fn read_key(&self, key: usize) -> (text: Option<String>)
        ensures
            text_of(text) == Self::stored(self@, key),
    ;

    /// The colour that marks the field being edited.
    fn selected_color(&self) -> (color: Color)
        ensures
            color == Self::highlight(self@),
    ;
}

/// A form in progress: the field being edited, the line typed so far, and
/// the draft.
pub struct FormState<T: FormSpec> {
    selected_color: Color,
    curr_buff: Input,
    index: usize,
    fields: T,
}

/// What an advance makes of a form: the line is handed in for the field
/// being edited. If it is accepted and another field follows, that field is
/// edited next, starting from the text that the draft holds for it, or from
/// an empty line. Otherwise the field and the line stay.
pub open spec fn advanced<T: FormSpec>(before: FormState<T>, after: FormState<T>) -> bool {
    let draft = T::accepted(before.draft(), before.index(), before.text());
    &&& after.draft() == draft
    &&& if T::verdict(before.draft(), before.index(), before.text()) is NextField {
        &&& after.index() == before.index() + 1
        &&& after.text() == text_or_empty(T::stored(draft, after.index()))
    } else {
        &&& after.index() == before.index()
        &&& after.text() == before.text()
    }
}

/// Whether a press of `key` advances a form.
pub open spec fn advances(key: Option<Key>) -> bool {
    key == Some(Key::Insert) || key == Some(Key::Tab) || key == Some(Key::Enter)
}

/// What an event makes of a form. A press of Insert, Tab or Enter advances
/// the form; the output is there exactly when that completes the form, and
/// then the marking colour stays. Any other event goes to the line, which
/// reacts to it as the editing library has it; the line is then handed in
/// for the field being edited, only to bring the draft up to date: the form
/// stays at its field. Unless the form is complete, the marking colour is
/// brought up to date.
pub open spec fn input_handled<T: FormSpec>(
    before: FormState<T>,
    ev: Event,
    after: FormState<T>,
    output: Option<T::Output>,
) -> bool {
    if advances(pressed_key(ev)) {
        &&& advanced(before, after)
        &&& output is Some == (T::verdict(before.draft(), before.index(), before.text()) is Done)
        &&& match output {
            Some(out) => T::completes(after.draft(), out) && after.selected_color()
                == before.selected_color(),
            None => after.selected_color() == T::highlight(after.draft()),
        }
    } else {
        &&& output is None
        &&& after.index() == before.index()
        &&& after.text() == edited_text(*before.buffer(), ev)
        &&& after.draft() == T::accepted(before.draft(), before.index(), after.text())
        &&& after.selected_color() == T::highlight(after.draft())
    }
}

/// The form has just been started on `draft`: it is at its first field,
/// with an empty line.
pub open spec fn fresh_on<T: FormSpec>(form: FormState<T>, draft: T::V) -> bool {
    &&& form.wf()
    &&& form.index() == 0
    &&& form.text() == Seq::<char>::empty()
    &&& form.draft() == draft
    &&& form.selected_color() == T::highlight(draft)
}

impl<T: FormSpec> FormState<T> {
    /// The form is at one of its fields, and the draft holds all that this
    /// field relies on. Every form that this module hands out is so, and
    /// stays so.
    pub closed spec fn wf(&self) -> bool {
        &&& self.index < T::field_count()
        &&& T::ready(self.fields@, self.index)
    }

    /// The number of the field being edited.
    pub closed spec fn spec_index(&self) -> usize {
        self.index
    }

    /// The line being edited, as the editing library holds it.
    pub closed spec fn spec_buffer(&self) -> &Input {
        &self.curr_buff
    }

    /// The line typed so far.
    pub open spec fn text(&self) -> Seq<char> {
        buffer_text(*self.buffer())
    }

    /// What the fields accepted so far have given.
    pub closed spec fn draft(&self) -> T::V {
        self.fields@
    }

    /// The colour that marks the field being edited, as last brought up to date.
    pub closed spec fn spec_selected_color(&self) -> Color {
        self.selected_color
    }

    /// The form on `fields`, at its first field, with an empty line.
    pub fn new(fields: T) -> (form: Self)
        ensures
            fresh_on(form, fields@),
    {
        proof {
            T::lemma_first_field(fields@);
        }
        let selected_color = fields.selected_color();
        FormState { selected_color, curr_buff: new_buffer(), index: 0, fields }
    }

    /// The number of the field being edited.
    #[verifier::when_used_as_spec(spec_index)]
    pub fn index(&self) -> (index: usize)
        ensures
            index == self.spec_index(),
    {
        self.index
    }

    /// In a form that is well formed there is a field being edited, and the
    /// draft holds all that it relies on.
    pub proof fn lemma_wf(&self)
        requires
            self.wf(),
        ensures
            self.index() < T::field_count(),
            T::ready(self.draft(), self.index()),
    {
    }

    /// The line typed so far.
    pub fn value(&self) -> (text: &str)
        ensures
            text@ == self.text(),
    {
        buffer_value(&self.curr_buff)
    }

    /// The line being edited, as the editing library holds it.
    #[verifier::when_used_as_spec(spec_buffer)]
    pub fn buffer(&self) -> (buffer: &Input)
        ensures
            buffer == self.spec_buffer(),
    {
        &self.curr_buff
    }

    /// The fields, with what they hold.
    pub fn fields(&self) -> (fields: &T)
        ensures
            fields@ == self.draft(),
    {
        &self.fields
    }

    /// The colour that marks the field being edited, as last brought up to date.
    #[verifier::when_used_as_spec(spec_selected_color)]
    pub fn selected_color(&self) -> (color: Color)
        ensures
            color == self.spec_selected_color(),
    {
        self.selected_color
    }

    /// Lets the form react to an event. A press of Insert, Tab or Enter
    /// advances the form, and yields the output where that completes it.
    /// Any other event goes to the line, which is then handed in for the
    /// field being edited, only to bring the draft and the marking colour
    /// up to date: the form stays at its field.
    #[must_use]
    pub fn handle_input(&mut self, ev: &Event) -> (output: Option<T::Output>)
        requires
            old(self).wf(),
        ensures
            final(self).wf(),
            input_handled(*old(self), *ev, *final(self), output),
    {
        match decode(ev) {
            Some(Key::Insert) | Some(Key::Tab) | Some(Key::Enter) => {
                if let FormPoll::Done(v) = self.next() {
                    return Some(v);
                }
            },
            _ => {
                edit_buffer(&mut self.curr_buff, ev);
                proof {
                    T::lemma_accepted_ready(self.fields@, self.index, buffer_text(self.curr_buff));
                }
                let _ = self.fields.try_into_key(self.index, buffer_value(&self.curr_buff));
            },
        }
        self.selected_color = self.fields.selected_color();
        None
    }

    /// Advances the form: hands in the line for the field being edited.
    pub fn next(&mut self) -> (poll: FormPoll<T::Output>)
        requires
            old(self).wf(),
        ensures
            final(self).wf(),
            advanced(*old(self), *final(self)),
            poll_kind(poll) == T::verdict(old(self).draft(), old(self).index(), old(self).text()),
            poll matches FormPoll::Done(output) ==> T::completes(final(self).draft(), output),
            final(self).selected_color() == old(self).selected_color(),
    {
        proof {
            T::lemma_first_field(self.fields@);
            T::lemma_accepted_ready(self.fields@, self.index, buffer_text(self.curr_buff));
        }
        let res = self.fields.try_into_key(self.index, buffer_value(&self.curr_buff));
        if let FormPoll::NextField = res {
            self.index += 1;
            match self.fields.read_key(self.index) {
                Some(next) => {
                    self.curr_buff = buffer_with_value(&self.curr_buff, next);
                },
                None => {
                    clear_buffer(&mut self.curr_buff);
                },
            }
        }
        res
    }

    /// Starts the form anew on `fresh`: at its first field, with an empty line.
    pub fn reset(&mut self, fresh: T)
        ensures
            fresh_on(*final(self), fresh@),
    {
        proof {
            T::lemma_first_field(fresh@);
        }
        clear_buffer(&mut self.curr_buff);
        self.index = 0;
        self.fields = fresh;
        self.selected_color = self.fields.selected_color();
    }
}

/// What the tag form has gathered so far.
pub struct TagDraft {
    pub name: Seq<char>,
    pub score: Option<u64>,
    pub color: Color,
}

/// The form that makes a tag: a name, a score and a colour.
#[derive(Debug)]
pub struct TagForm {
    name: String,
    score: Option<u64>,
    color: Color,
}

impl View for TagForm {
    type V = TagDraft;

    closed spec fn view(&self) -> TagDraft {
        TagDraft { name: self.name@, score: self.score, color: self.color }
    }
}

impl TagForm {
    /// An empty form whose colour field starts from `color`.
    pub fn new(color: Color) -> (form: Self)
        ensures
            form@ == (TagDraft { name: Seq::empty(), score: None, color }),
    {
        TagForm { name: String::new(), score: None, color }
    }

    /// The tag that the form has gathered.
    fn tag(&self) -> (tag: Tag)
        requires
            self@.score is Some,
        ensures
            Self::completes(self@, tag),
    {
        Tag { name: self.name.clone(), score: self.score.unwrap(), color: self.color }
    }
}

impl FormSpec for TagForm {
    type Output = Tag;

    open spec fn field_count() -> nat {
        3
    }

    /// The colour field, and what were to follow it, rely on a score.
    open spec fn ready(draft: TagDraft, key: usize) -> bool {
        key >= 2 ==> draft.score is Some
    }

    /// A name must hold more than whitespace; a score must be a number; a
    /// colour must be one that the terminal library can read, and it
    /// completes the form.
    open spec fn verdict(draft: TagDraft, key: usize, content: Seq<char>) -> FormPoll<()> {
        if key == 0 {
            if trimmed(content).len() > 0 {
                FormPoll::NextField
            } else {
                FormPoll::Invalid
            }
        } else if key == 1 {
            if parsed_u64(trimmed(content)) is Some {
                FormPoll::NextField
            } else {
                FormPoll::Invalid
            }
        } else if key == 2 {
            if color_parsed(content) is Some {
                FormPoll::Done(())
            } else {
                FormPoll::Invalid
            }
        } else {
            FormPoll::Done(())
        }
    }

    /// What is accepted is kept: the name and the score without the
    /// whitespace around them, the colour as read. What is refused changes
    /// nothing.
    open spec fn accepted(draft: TagDraft, key: usize, content: Seq<char>) -> TagDraft {
        if key == 0 && trimmed(content).len() > 0 {
            TagDraft { name: trimmed(content), ..draft }
        } else if key == 1 && parsed_u64(trimmed(content)) is Some {
            TagDraft { score: parsed_u64(trimmed(content)), ..draft }
        } else if key == 2 && color_parsed(content) is Some {
            TagDraft { color: color_parsed(content).unwrap(), ..draft }
        } else {
            draft
        }
    }

    open spec fn completes(draft: TagDraft, output: Tag) -> bool {
        &&& output.name@ == draft.name
        &&& draft.score == Some(output.score)
        &&& output.color == draft.color
    }

    open spec fn stored(draft: TagDraft, key: usize) -> Option<Seq<char>> {
        if key == 0 {
            if draft.name.len() > 0 {
                Some(draft.name)
            } else {
                None
            }
        } else if key == 1 {
            match draft.score {
                Some(score) => Some(shown_u64(score as nat)),
                None => None,
            }
        } else if key == 2 {
            Some(color_shown(draft.color))
        } else {
            None
        }
    }

    open spec fn highlight(draft: TagDraft) -> Color {
        draft.color
    }

    proof fn lemma_first_field(draft: TagDraft) {
    }

    proof fn lemma_accepted_ready(draft: TagDraft, key: usize, content: Seq<char>) {
    }

    fn prompts() -> (prompts: Vec<&'static str>)
        ensures
            prompts@.len() == 3,
            prompts@[0]@ == "Name"@,
            prompts@[1]@ == "Score"@,
            prompts@[2]@ == "Color"@,
    {
        vec!["Name", "Score", "Color"]
    }

    fn try_into_key(&mut self, key: usize, content: &str) -> (poll: FormPoll<Tag>) {
        match key {
            0 => {
                let name = trim(content);
                if !name.is_empty() {
                    self.name = name.to_owned();
                    FormPoll::NextField
                } else {
                    FormPoll::Invalid
                }
            },
            1 => match parse_u64(trim(content)) {
                Some(n) => {
                    self.score = Some(n);
                    FormPoll::NextField
                },
                None => FormPoll::Invalid,
            },
            2 => match parse_color(content) {
                Ok(c) => {
                    self.color = c;
                    FormPoll::Done(self.tag())
                },
                Err(_) => FormPoll::Invalid,
            },
            _ => FormPoll::Done(self.tag()),
        }
    }

    fn read_key(&self, key: usize) -> (text: Option<String>) {
        match key {
            0 => {
                if !self.name.as_str().is_empty() {
                    Some(self.name.clone())
                } else {
                    None
                }
            },
            1 => match self.score {
                Some(v) => Some(show_u64(v)),
                None => None,
            },
            2 => Some(show_color(self.color)),
            _ => None,
        }
    }

    fn selected_color(&self) -> (color: Color) {
        self.color
    }
}

/// Advancing a tag form from its name field. A name that trimming leaves
/// empty, as it leaves the empty line, is refused: the form stays at the
/// field, with its line and its draft. Any other name is accepted, without
/// the whitespace around it: the form goes on to the score field, whose line
/// starts empty where the draft holds no score yet.
pub proof fn lemma_name_field(before: FormState<TagForm>, after: FormState<TagForm>)
    requires
        before.index() == 0,
        advanced(before, after),
    ensures
        before.text().len() == 0 ==> trimmed(before.text()).len() == 0,
        trimmed(before.text()).len() == 0 ==> {
            &&& TagForm::verdict(before.draft(), 0, before.text()) is Invalid
            &&& after.index() == 0
            &&& after.text() == before.text()
            &&& after.draft() == before.draft()
        },
        trimmed(before.text()).len() > 0 ==> {
            &&& TagForm::verdict(before.draft(), 0, before.text()) is NextField
            &&& after.index() == 1
            &&& after.draft() == (TagDraft { name: trimmed(before.text()), ..before.draft() })
            &&& before.draft().score is None ==> after.text() == Seq::<char>::empty()
        },
{
    lemma_trimmed_len(before.text());
}

} // verus!
