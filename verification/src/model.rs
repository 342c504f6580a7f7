//! The session: the catalogue, the mode, the two selections, the repeat
//! count and the tag form, and what each message makes of them.

use crate::form::{advanced, fresh_on, input_handled};
use crate::form::{FormPoll, FormSpec, FormState, TagDraft, TagForm};
use crate::messages::{Message, MoveDirection};
use crate::mods::app_mod::{tag_attached, Mod};
use crate::mods::tag::Tag;
use crate::mods::{sorted, stable_sorted, upsert_result, OrderedVec};
use crate::text::{parse_u64, parsed_u64, push_char};
use ratatui::style::Color;
use vstd::prelude::*;

verus! {

/// What the keys mean at the moment.
#[derive(Clone, Copy, Debug, Default, PartialEq, Eq, Structural)]
pub enum Mode {
    /// Mods are browsed.
    #[default]
    Normal,
    /// A tag is created.
    CreateTag,
    /// The tags are listed.
    ShowTags,
    /// A tag is picked for the selected mod.
    Insert,
}

impl Mode {
    /// The name of the mode, as the status line shows it.
    pub fn str_repr(&self) -> (name: &'static str)
        ensures
            name@ == match *self {
                Mode::Normal => " NORMAL "@,
                Mode::CreateTag => " CREATE TAG "@,
                Mode::ShowTags => " LISTING TAG "@,
                Mode::Insert => " INSERT "@,
            },
    {
        match self {
            Mode::Normal => " NORMAL ",
            Mode::CreateTag => " CREATE TAG ",
            Mode::ShowTags => " LISTING TAG ",
            Mode::Insert => " INSERT ",
        }
    }
}

/// The catalogue: what outlasts a session.
#[derive(Clone, Debug)]
pub struct Persistent {
    pub mods: OrderedVec<Mod>,
    pub tags: OrderedVec<Tag>,
}

impl Default for Persistent {
    fn default() -> (catalogue: Self)
        ensures
            catalogue.mods@ == Seq::<Mod>::empty(),
            catalogue.tags@ == Seq::<Tag>::empty(),
    {
        Self { mods: OrderedVec::default(), tags: OrderedVec::default() }
    }
}

/// A session.
pub struct Model {
    should_close: bool,
    current_mode: Mode,
    movement_delta: String,
    item_cursor: Option<usize>,
    tag_cursor: Option<usize>,
    tag_form: FormState<TagForm>,
    persistent: Persistent,
}

/// What a session holds.
pub struct ModelView {
    /// Whether the session is to end.
    pub closing: bool,
    /// What the keys mean at the moment.
    pub mode: Mode,
    /// The repeat count, as typed so far.
    pub delta: Seq<char>,
    /// The place of the selected mod.
    pub item_cursor: Option<usize>,
    /// The place of the selected tag.
    pub tag_cursor: Option<usize>,
    /// The form that makes a new tag.
    pub form: FormState<TagForm>,
    /// The mods of the catalogue, in their order.
    pub mods: Seq<Mod>,
    /// The tags of the catalogue, in their order.
    pub tags: Seq<Tag>,
}

impl View for Model {
    type V = ModelView;

    closed spec fn view(&self) -> ModelView {
        ModelView {
            closing: self.should_close,
            mode: self.current_mode,
            delta: self.movement_delta@,
            item_cursor: self.item_cursor,
            tag_cursor: self.tag_cursor,
            form: self.tag_form,
            mods: self.persistent.mods@,
            tags: self.persistent.tags@,
        }
    }
}

/// A selection is a place in the list of `len` items that it selects from.
pub open spec fn in_range(cursor: Option<usize>, len: nat) -> bool {
    cursor matches Some(at) ==> at < len
}

/// The selection that a new session starts with: the first item, if there is one.
pub open spec fn first_of(len: nat) -> Option<usize> {
    if len > 0 {
        Some(0)
    } else {
        None
    }
}

/// How many steps a movement takes: the number that the repeat count
/// writes, and one step where it writes none.
pub open spec fn repeat_count(delta: Seq<char>) -> usize {
    match parsed_u64(delta) {
        Some(n) => if n <= usize::MAX {
            n as usize
        } else {
            1
        },
        None => 1,
    }
}

/// Where a selection stands after `count` steps in a list of `len` items:
/// it stops at the first and at the last item, and a selection of nothing
/// stays one.
pub open spec fn moved(
    cursor: Option<usize>,
    direction: MoveDirection,
    count: usize,
    len: nat,
) -> Option<usize> {
    match cursor {
        None => None,
        Some(at) => {
            let last = if len == 0 {
                0
            } else {
                len - 1
            };
            Some(
                match direction {
                    MoveDirection::Up | MoveDirection::Left => if at >= count {
                        (at - count) as usize
                    } else {
                        0
                    },
                    MoveDirection::Down | MoveDirection::Right => if at + count <= last {
                        (at + count) as usize
                    } else {
                        last as usize
                    },
                },
            )
        },
    }
}

/// The tag that the form yields on `draft` was upserted into `before`,
/// which made `after` of it.
pub open spec fn tag_created(draft: TagDraft, before: Seq<Tag>, after: Seq<Tag>) -> bool {
    exists|tag: Tag| #[trigger] TagForm::completes(draft, tag) && upsert_result(before, tag, after)
}

/// The mod at `at` got `tag` attached, and the mods were put back in order.
pub open spec fn tag_inserted(before: Seq<Mod>, at: int, tag: Tag, after: Seq<Mod>) -> bool {
    exists|m: Mod| #[trigger]
        tag_attached(before[at], tag, m) && after == stable_sorted(before.update(at, m))
}

/// What a message makes of a session, and the message that is to follow.
/// `swatch` is the colour that a new tag form starts from.
pub open spec fn updated(
    before: ModelView,
    msg: Message,
    swatch: Color,
    after: ModelView,
    follow: Option<Message>,
) -> bool {
    match msg {
        Message::ClearCommand => {
            &&& after == ModelView { delta: Seq::empty(), ..before }
            &&& follow is None
        },
        Message::AppendMovement(c) => {
            &&& after == ModelView { delta: before.delta.push(c), ..before }
            &&& follow is None
        },
        Message::MoveDirection(direction) => {
            let count = repeat_count(before.delta);
            &&& after == match before.mode {
                Mode::Normal => ModelView {
                    item_cursor: moved(before.item_cursor, direction, count, before.mods.len()),
                    ..before
                },
                Mode::Insert => ModelView {
                    tag_cursor: moved(before.tag_cursor, direction, count, before.tags.len()),
                    ..before
                },
                _ => before,
            }
            &&& follow == Some(Message::ClearCommand)
        },
        Message::PropagateEvent(ev) => {
            &&& after == ModelView { form: after.form, tags: after.tags, ..before }
            &&& exists|output: Option<Tag>| #[trigger]
                input_handled(before.form, ev, after.form, output) && output is Some
                    == (follow is Some)
            &&& match follow {
                Some(next) => next == Message::ChangeMode(Mode::Normal) && tag_created(
                    after.form.draft(),
                    before.tags,
                    after.tags,
                ),
                None => after.tags == before.tags,
            }
        },
        Message::NextField => {
            &&& after == ModelView { form: after.form, tags: after.tags, ..before }
            &&& advanced(before.form, after.form)
            &&& after.form.selected_color() == before.form.selected_color()
            &&& follow is Some == (TagForm::verdict(
                before.form.draft(),
                before.form.index(),
                before.form.text(),
            ) is Done)
            &&& match follow {
                Some(next) => next == Message::ChangeMode(Mode::Normal) && tag_created(
                    after.form.draft(),
                    before.tags,
                    after.tags,
                ),
                None => after.tags == before.tags,
            }
        },
        Message::InsertTag => {
            &&& before.item_cursor is Some
            &&& before.tag_cursor is Some
            &&& after == ModelView { tag_cursor: Some(0), mods: after.mods, ..before }
            &&& tag_inserted(
                before.mods,
                before.item_cursor.unwrap() as int,
                before.tags[before.tag_cursor.unwrap() as int],
                after.mods,
            )
            &&& sorted(after.mods)
            &&& follow == Some(Message::ChangeMode(Mode::Normal))
        },
        Message::ChangeMode(mode) => {
            &&& after == ModelView { mode, form: after.form, ..before }
            &&& if mode == Mode::CreateTag {
                fresh_on(after.form, TagDraft { name: Seq::empty(), score: None, color: swatch })
            } else {
                after.form == before.form
            }
            &&& follow == Some(Message::ClearCommand)
        },
        Message::Exit => {
            &&& after == ModelView { closing: true, ..before }
            &&& follow is None
        },
    }
}

/// How many messages can still follow a message: none follows a message of
/// rank 0, and what follows a message has a lower rank than it.
pub open spec fn rank(msg: Message) -> nat {
    match msg {
        Message::ClearCommand | Message::AppendMovement(_) | Message::Exit => 0,
        Message::MoveDirection(_) | Message::ChangeMode(_) => 1,
        Message::PropagateEvent(_) | Message::NextField | Message::InsertTag => 2,
    }
}

/// The message that follows a message has a lower rank, so the messages
/// that follow one another from one event are three at most.
pub proof fn lemma_follow_ranks_lower(
    before: ModelView,
    msg: Message,
    swatch: Color,
    after: ModelView,
    follow: Option<Message>,
)
    requires
        updated(before, msg, swatch, after, follow),
    ensures
        rank(msg) <= 2,
        follow matches Some(next) ==> rank(next) < rank(msg),
{
}

/// How many steps a movement takes.
fn movement_count(delta: &str) -> (count: usize)
    ensures
        count == repeat_count(delta@),
{
    match parse_u64(delta) {
        Some(n) => if n <= usize::MAX as u64 {
            n as usize
        } else {
            1
        },
        None => 1,
    }
}

/// Where a selection stands after `count` steps in a list of `len` items.
fn move_cursor(
    cursor: Option<usize>,
    direction: MoveDirection,
    count: usize,
    len: usize,
) -> (to: Option<usize>)
    ensures
        to == moved(cursor, direction, count, len as nat),
{
    match cursor {
        Some(s) => Some(
            match direction {
                MoveDirection::Up => s.saturating_sub(count),
                MoveDirection::Down => {
                    let down = s.saturating_add(count);
                    let last = len.saturating_sub(1);
                    if down < last {
                        down
                    } else {
                        last
                    }
                },
                MoveDirection::Left => s.saturating_sub(count),
                MoveDirection::Right => {
                    let down = s.saturating_add(count);
                    let last = len.saturating_sub(1);
                    if down < last {
                        down
                    } else {
                        last
                    }
                },
            },
        ),
        None => None,
    }
}

impl Model {
    /// The selections are places in their lists, and the tag form is well
    /// formed. Every session that this module hands out is so, and stays so.
    pub closed spec fn wf(&self) -> bool {
        &&& in_range(self.item_cursor, self.persistent.mods@.len())
        &&& in_range(self.tag_cursor, self.persistent.tags@.len())
        &&& self.tag_form.wf()
    }

    /// In a well-formed session a selection never points past its list.
    pub proof fn lemma_wf(&self)
        requires
            self.wf(),
        ensures
            in_range(self@.item_cursor, self@.mods.len()),
            in_range(self@.tag_cursor, self@.tags.len()),
            self@.form.wf(),
    {
    }

    /// The mode of the session.
    pub closed spec fn spec_mode(&self) -> Mode {
        self.current_mode
    }

    /// A session on `persistent`, browsing mods, with the first mod and the
    /// first tag selected, if there are any. `swatch` is the colour that the
    /// tag form starts from.
    pub fn new(persistent: Persistent, swatch: Color) -> (model: Self)
        ensures
            model.wf(),
            model@.closing == false,
            model@.mode == Mode::Normal,
            model@.delta == Seq::<char>::empty(),
            model@.item_cursor == first_of(persistent.mods@.len()),
            model@.tag_cursor == first_of(persistent.tags@.len()),
            model@.mods == persistent.mods@,
            model@.tags == persistent.tags@,
            fresh_on(model@.form, TagDraft { name: Seq::empty(), score: None, color: swatch }),
    {
        let item_cursor = if !persistent.mods.is_empty() {
            Some(0)
        } else {
            None
        };
        let tag_cursor = if !persistent.tags.is_empty() {
            Some(0)
        } else {
            None
        };
        Self {
            should_close: false,
            current_mode: Mode::Normal,
            movement_delta: String::new(),
            item_cursor,
            tag_cursor,
            tag_form: FormState::new(TagForm::new(swatch)),
            persistent,
        }
    }

    /// Whether the session is to end.
    pub fn should_close(&self) -> (closing: bool)
        ensures
            closing == self@.closing,
    {
        self.should_close
    }

    /// The catalogue as the session leaves it.
    pub fn result(self) -> (catalogue: Persistent)
        ensures
            catalogue.mods@ == self@.mods,
            catalogue.tags@ == self@.tags,
    {
        self.persistent
    }

    /// The mode of the session.
    #[verifier::when_used_as_spec(spec_mode)]
    pub fn mode(&self) -> (mode: Mode)
        ensures
            mode == self.spec_mode(),
            mode == self@.mode,
    {
        self.current_mode
    }

    /// The repeat count, as typed so far.
    pub fn movement_delta(&self) -> (delta: &str)
        ensures
            delta@ == self@.delta,
    {
        self.movement_delta.as_str()
    }

    /// The place of the selected mod.
    pub fn item_cursor(&self) -> (cursor: Option<usize>)
        ensures
            cursor == self@.item_cursor,
    {
        self.item_cursor
    }

    /// The place of the selected tag.
    pub fn tag_cursor(&self) -> (cursor: Option<usize>)
        ensures
            cursor == self@.tag_cursor,
    {
        self.tag_cursor
    }

    /// The mods of the catalogue.
    pub fn mods(&self) -> (mods: &OrderedVec<Mod>)
        ensures
            mods@ == self@.mods,
    {
        &self.persistent.mods
    }

    /// The tags of the catalogue.
    pub fn tags(&self) -> (tags: &OrderedVec<Tag>)
        ensures
            tags@ == self@.tags,
    {
        &self.persistent.tags
    }

    /// The tag form.
    pub fn form(&self) -> (form: &FormState<TagForm>)
        ensures
            *form == self@.form,
    {
        &self.tag_form
    }

    /// Does what `msg` asks for, and says which message is to follow at
    /// once, if any. `swatch` is the colour that the tag form starts from
    /// when the session enters `Mode::CreateTag`.
    pub fn update(&mut self, msg: Message, swatch: Color) -> (follow: Option<Message>)
        requires
            old(self).wf(),
            msg is InsertTag ==> old(self)@.item_cursor is Some && old(self)@.tag_cursor is Some,
        ensures
            final(self).wf(),
            updated(old(self)@, msg, swatch, final(self)@, follow),
    {
        match msg {
            Message::ClearCommand => {
                self.movement_delta = String::new();
            },
            Message::AppendMovement(ch) => {
                push_char(&mut self.movement_delta, ch);
            },
            Message::MoveDirection(direction) => {
                let d: usize = movement_count(self.movement_delta.as_str());
                match self.current_mode {
                    Mode::Normal => {
                        self.item_cursor = move_cursor(
                            self.item_cursor,
                            direction,
                            d,
                            self.persistent.mods.len(),
                        );
                    },
                    Mode::Insert => {
                        self.tag_cursor = move_cursor(
                            self.tag_cursor,
                            direction,
                            d,
                            self.persistent.tags.len(),
                        );
                    },
                    _ => {},
                }
                return Some(Message::ClearCommand);
            },
            Message::PropagateEvent(ev) => {
                if let Some(t) = self.tag_form.handle_input(&ev) {
                    self.persistent.tags.upsert(t);
                    return Some(Message::ChangeMode(Mode::Normal));
                }
            },
            Message::NextField => {
                if let FormPoll::Done(t) = self.tag_form.next() {
                    self.persistent.tags.upsert(t);
                    return Some(Message::ChangeMode(Mode::Normal));
                }
            },
            Message::InsertTag => {
                let tag = self.persistent.tags.get(self.tag_cursor.unwrap()).unwrap().clone();
                self.tag_cursor = Some(0);
                self.persistent.mods.upsert_tag_to(self.item_cursor.unwrap(), tag);
                return Some(Message::ChangeMode(Mode::Normal));
            },
            Message::ChangeMode(mode) => {
                if matches!(mode, Mode::CreateTag) {
                    self.tag_form.reset(TagForm::new(swatch));
                }
                self.current_mode = mode;
                return Some(Message::ClearCommand);
            },
            Message::Exit => {
                self.should_close = true;
            },
        }
        None
    }
}

} // verus!
