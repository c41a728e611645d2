//! Colours as the display server takes them, and the errors it reports.

use vstd::prelude::*;

verus! {

/// The red, green, blue and alpha parts, each from 0 to 255, of the colour
/// that a string denotes in CSS notation; nothing where the string denotes
/// no colour.
pub uninterp spec fn css_rgba8(color: Seq<char>) -> Option<(u8, u8, u8, u8)>;

/// Reads a colour in CSS notation with `csscolorparser::parse` and takes
/// its four parts as bytes with `Color::to_rgba8`. Nothing is claimed of
/// which strings denote which colours, only that the answer depends on the
/// string alone.
#[verifier::external_body]
fn parse_rgba8(color_str: &str) -> (rgba: Option<(u8, u8, u8, u8)>)
    ensures
        rgba == css_rgba8(color_str@),
{
    match csscolorparser::parse(color_str) {
        Ok(color) => {
            let [r, g, b, a] = color.to_rgba8();
            Some((r, g, b, a))
        },
        Err(_) => None,
    }
}

/// A colour as the display server takes it: three parts of sixteen bits.
#[derive(Debug, Clone, Copy, PartialEq, Eq, Structural)]
pub struct ColorChannels {
    pub red: u16,
    pub green: u16,
    pub blue: u16,
}

/// The sixteen-bit parts of a colour given in bytes: each byte is repeated
/// in the upper and the lower half of its part, so that 0 stays 0 and 255
/// becomes the largest value. The alpha part is dropped.
pub open spec fn widened(rgba: (u8, u8, u8, u8)) -> ColorChannels {
    ColorChannels {
        red: (rgba.0 * 257) as u16,
        green: (rgba.1 * 257) as u16,
        blue: (rgba.2 * 257) as u16,
    }
}

/// Widens the parts of a colour from eight to sixteen bits.
pub fn widen_channels(rgba: (u8, u8, u8, u8)) -> (channels: ColorChannels)
    ensures
        channels == widened(rgba),
        channels.red == rgba.0 * 257,
        channels.green == rgba.1 * 257,
        channels.blue == rgba.2 * 257,
{
    let (r, g, b, _) = rgba;
    let red = (r as u16) * 257;
    let green = (g as u16) * 257;
    let blue = (b as u16) * 257;
    ColorChannels { red, green, blue }
}

/// The parts, as the display server takes them, of the colour that
/// `color_str` denotes in CSS notation; nothing where it denotes none.
pub fn color_channels(color_str: &str) -> (channels: Option<ColorChannels>)
    ensures
        channels == match css_rgba8(color_str@) {
            Some(rgba) => Some(widened(rgba)),
            None => None,
        },
{
    match parse_rgba8(color_str) {
        Some(rgba) => Some(widen_channels(rgba)),
        None => None,
    }
}

/// The error code with which the display server reports a window that no
/// longer exists.
pub const BAD_WINDOW: u8 = 3;

/// The error code with which the display server reports a request that
/// does not fit the window it names.
pub const BAD_MATCH: u8 = 8;

/// The request code of setting the input focus.
pub const SET_INPUT_FOCUS: u8 = 42;

/// Whether an error of the display server is one to expect in normal
/// operation: a window was gone before a request for it arrived, or the
/// input focus was to go to a window that could not take it any more.
pub fn is_expected_error(error_code: u8, request_code: u8) -> (expected: bool)
    ensures
        expected == (error_code == BAD_WINDOW || (error_code == BAD_MATCH && request_code
            == SET_INPUT_FOCUS)),
{
    error_code == BAD_WINDOW || (error_code == BAD_MATCH && request_code == SET_INPUT_FOCUS)
}

} // verus!
