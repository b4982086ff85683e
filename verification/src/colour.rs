//! The colours a setting can take and the fixed palette they are stepped
//! through.

use vstd::prelude::*;
use vstd::string::*;

verus! {

/// A terminal colour. The nine palette colours are the ones a setting can be
/// stepped through; the others can only arrive from stored settings.
#[derive(Clone, Copy, PartialEq, Eq, Debug, Structural)]
pub enum Colour {
    Reset,
    Black,
    Red,
    Green,
    Yellow,
    Blue,
    Magenta,
    Cyan,
    Gray,
    DarkGray,
    LightRed,
    LightGreen,
    LightYellow,
    LightBlue,
    LightMagenta,
    LightCyan,
    White,
    Rgb(u8, u8, u8),
    Indexed(u8),
}

/// The palette in stepping order.
pub open spec fn palette() -> Seq<Colour> {
    seq![
        Colour::White,
        Colour::Cyan,
        Colour::Red,
        Colour::Green,
        Colour::Blue,
        Colour::Yellow,
        Colour::Gray,
        Colour::DarkGray,
        Colour::Black,
    ]
}

/// Whether `colour` is one of the nine palette colours.
pub open spec fn in_palette(colour: Colour) -> bool {
    palette().contains(colour)
}

/// The place of a palette colour in the palette.
pub open spec fn palette_index(colour: Colour) -> int {
    match colour {
        Colour::White => 0,
        Colour::Cyan => 1,
        Colour::Red => 2,
        Colour::Green => 3,
        Colour::Blue => 4,
        Colour::Yellow => 5,
        Colour::Gray => 6,
        Colour::DarkGray => 7,
        Colour::Black => 8,
        _ => -1,
    }
}

/// The colour after `colour` in the palette, wrapping from the last to the
/// first; `Reset` for a colour outside the palette.
pub open spec fn spec_next_colour(colour: Colour) -> Colour {
    if palette_index(colour) >= 0 {
        palette()[(palette_index(colour) + 1) % 9]
    } else {
        Colour::Reset
    }
}

/// The colour before `colour` in the palette, wrapping from the first to the
/// last; `Reset` for a colour outside the palette.
pub open spec fn spec_prev_colour(colour: Colour) -> Colour {
    if palette_index(colour) >= 0 {
        palette()[(palette_index(colour) + 8) % 9]
    } else {
        Colour::Reset
    }
}

/// The name shown for a colour.
pub open spec fn colour_name(colour: Colour) -> Seq<char> {
    match colour {
        Colour::White => "White"@,
        Colour::Cyan => "Cyan"@,
        Colour::Red => "Red"@,
        Colour::Green => "Green"@,
        Colour::Blue => "Blue"@,
        Colour::Yellow => "Yellow"@,
        Colour::Gray => "Gray"@,
        Colour::DarkGray => "Dark gray"@,
        Colour::Black => "Black"@,
        _ => "Unknown"@,
    }
}

/// The name to show for `colour`: the palette colour's name, `Unknown` for
/// any other.
pub fn colour_to_string(colour: Colour) -> (name: String)
    ensures
        name@ == colour_name(colour),
{
    match colour {
        Colour::White => String::from_str("White"),
        Colour::Cyan => String::from_str("Cyan"),
        Colour::Red => String::from_str("Red"),
        Colour::Green => String::from_str("Green"),
        Colour::Blue => String::from_str("Blue"),
        Colour::Yellow => String::from_str("Yellow"),
        Colour::Gray => String::from_str("Gray"),
        Colour::DarkGray => String::from_str("Dark gray"),
        Colour::Black => String::from_str("Black"),
        _ => String::from_str("Unknown"),
    }
}

/// Steps one colour forward through the palette.
pub fn next_colour(colour: Colour) -> (next: Colour)
    ensures
        next == spec_next_colour(colour),
{
    match colour {
        Colour::White => Colour::Cyan,
        Colour::Cyan => Colour::Red,
        Colour::Red => Colour::Green,
        Colour::Green => Colour::Blue,
        Colour::Blue => Colour::Yellow,
        Colour::Yellow => Colour::Gray,
        Colour::Gray => Colour::DarkGray,
        Colour::DarkGray => Colour::Black,
        Colour::Black => Colour::White,
        _ => Colour::Reset,
    }
}

/// Steps one colour backward through the palette.
pub fn prev_colour(colour: Colour) -> (prev: Colour)
    ensures
        prev == spec_prev_colour(colour),
{
    match colour {
        Colour::White => Colour::Black,
        Colour::Cyan => Colour::White,
        Colour::Red => Colour::Cyan,
        Colour::Green => Colour::Red,
        Colour::Blue => Colour::Green,
        Colour::Yellow => Colour::Blue,
        Colour::Gray => Colour::Yellow,
        Colour::DarkGray => Colour::Gray,
        Colour::Black => Colour::DarkGray,
        _ => Colour::Reset,
    }
}

/// The palette index names exactly the palette colours, each at its place.
pub proof fn lemma_palette_index(colour: Colour)
    ensures
        in_palette(colour) <==> palette_index(colour) >= 0,
        palette_index(colour) >= 0 ==> palette_index(colour) < 9 && palette()[palette_index(
            colour,
        )] == colour,
{
    let p = palette();
    if palette_index(colour) >= 0 {
        assert(p[palette_index(colour)] == colour);
    } else {
        assert forall|i: int| 0 <= i < p.len() implies p[i] != colour by {
            assert(palette_index(p[i]) == i);
        }
    }
}

/// On the palette, stepping forward and then backward, or backward and then
/// forward, comes back to the same colour, and stepping never leaves the
/// palette.
pub proof fn lemma_colour_steps_invert(colour: Colour)
    requires
        in_palette(colour),
    ensures
        spec_prev_colour(spec_next_colour(colour)) == colour,
        spec_next_colour(spec_prev_colour(colour)) == colour,
        in_palette(spec_next_colour(colour)),
        in_palette(spec_prev_colour(colour)),
{
    lemma_palette_index(colour);
    lemma_palette_index(spec_next_colour(colour));
    lemma_palette_index(spec_prev_colour(colour));
}

} // verus!
