//! Colours, which stay what the terminal library makes of them.

use ratatui::style::{Color, ParseColorError};
use std::str::FromStr;
use vstd::prelude::*;

verus! {

/// `ratatui::style::Color`: a colour of the terminal, taken as it is.
#[verifier::external_type_specification]
#[verifier::external_body]
pub struct ExColor(Color);

/// `ratatui::style::ParseColorError`: what `Color::from_str` fails with.
#[verifier::external_type_specification]
#[verifier::external_body]
pub struct ExParseColorError(ParseColorError);

/// The colour that `Color::from_str` reads out of `text`, if it reads one.
pub uninterp spec fn color_parsed(text: Seq<char>) -> Option<Color>;

/// The text that `Color`'s `Display` writes for `color`.
pub uninterp spec fn color_shown(color: Color) -> Seq<char>;

/// Reads a colour with `Color::from_str`, which takes a colour's name, the
/// number of an indexed colour, or `#` and six hexadecimal digits.
#[verifier::external_body]
pub(crate) fn parse_color(text: &str) -> (color: Result<Color, ParseColorError>)
    ensures
        color.ok() == color_parsed(text@),
{
    Color::from_str(text)
}

/// Writes a colour as `Color`'s `Display` does.
#[verifier::external_body]
pub(crate) fn show_color(color: Color) -> (text: String)
    ensures
        text@ == color_shown(color),
{
    color.to_string()
}

} // verus!
