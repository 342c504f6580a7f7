//! What the screen shows of a session, as far as it can be said without
//! drawing anything.

use crate::model::Mode;
use vstd::prelude::*;

verus! {

/// Which tags of a line are shown as selected.
#[derive(Clone, Copy, Debug, PartialEq, Eq, Structural)]
pub enum SelectedTag {
    /// Every tag of the line.
    All,
    /// The tag at one place.
    Index(usize),
    /// No tag.
    Nothing,
}

impl SelectedTag {
    /// Whether the tag at `idx` is shown as selected.
    pub open spec fn marks(self, idx: usize) -> bool {
        match self {
            SelectedTag::All => true,
            SelectedTag::Index(i) => i == idx,
            SelectedTag::Nothing => false,
        }
    }

    /// Whether the tag at `idx` is shown as selected.
    pub fn is_marked(&self, idx: usize) -> (marked: bool)
        ensures
            marked == self.marks(idx),
    {
        match self {
            SelectedTag::All => true,
            SelectedTag::Index(i) => *i == idx,
            SelectedTag::Nothing => false,
        }
    }

    /// The tags of a line that is selected, or not, as a whole.
    pub fn of_line(is_selected: bool) -> (selected: Self)
        ensures
            selected == (if is_selected {
                SelectedTag::All
            } else {
                SelectedTag::Nothing
            }),
    {
        if is_selected {
            SelectedTag::All
        } else {
            SelectedTag::Nothing
        }
    }

    /// The one tag that a selection points at.
    pub fn of_cursor(cursor: Option<usize>) -> (selected: Self)
        ensures
            selected == (match cursor {
                Some(i) => SelectedTag::Index(i),
                None => SelectedTag::Nothing,
            }),
    {
        match cursor {
            Some(i) => SelectedTag::Index(i),
            None => SelectedTag::Nothing,
        }
    }
}

/// The number shown before the row `idx`: how far the row is from the
/// selected one, and the row's own number for the selected row and where
/// nothing is selected.
pub open spec fn row_label(selected: Option<usize>, idx: usize) -> int {
    match selected {
        Some(s) => if s == idx {
            idx as int
        } else if idx < s {
            s - idx
        } else {
            idx - s
        },
        None => idx as int,
    }
}

/// The number shown before the row `idx`.
pub fn row_number(selected: Option<usize>, idx: usize) -> (number: usize)
    ensures
        number == row_label(selected, idx),
{
    match selected {
        Some(s) => {
            if s == idx {
                idx
            } else if idx < s {
                s - idx
            } else {
                idx - s
            }
        },
        None => idx,
    }
}

/// What the status line says at its right end in a mode without a repeat count.
pub open spec fn mode_hint(mode: Mode) -> Seq<char> {
    match mode {
        Mode::Normal => "Press ? for help, 'q' to quit"@,
        Mode::CreateTag => "Creating new tag, ESC to go back."@,
        Mode::ShowTags => "Listing created tags, 'e' to edit, 'q' or ESC to go back"@,
        Mode::Insert => "Inserting tag into selected mod, ESC to go back"@,
    }
}

/// What the status line says at its right end: the repeat count as typed so
/// far, and the hint of the mode where none was typed.
pub fn hint(mode: Mode, movement_delta: &str) -> (text: String)
    ensures
        text@ == (if movement_delta@.len() > 0 {
            movement_delta@
        } else {
            mode_hint(mode)
        }),
{
    if !movement_delta.is_empty() {
        movement_delta.to_owned()
    } else {
        match mode {
            Mode::Normal => "Press ? for help, 'q' to quit",
            Mode::CreateTag => "Creating new tag, ESC to go back.",
            Mode::ShowTags => "Listing created tags, 'e' to edit, 'q' or ESC to go back",
            Mode::Insert => "Inserting tag into selected mod, ESC to go back",
        }.to_owned()
    }
}

} // verus!
