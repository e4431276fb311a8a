//! Colour rendering for highlighted output. The semantic colour roles the
//! tool uses are listed here; turning a role into ANSI escape codes is
//! delegated to the `ansi_term` crate behind a trusted wrapper.

use vstd::prelude::*;

verus! {

/// The colour roles the output uses: red for matched text, green for line
/// numbers, cyan for path headers.
#[derive(Clone, Copy, Debug)]
pub enum PaintColor {
    Red,
    Green,
    Cyan,
}

/// The ANSI foreground code of each colour role.
pub open spec fn color_code(c: PaintColor) -> int {
    match c {
        PaintColor::Red => 31,
        PaintColor::Green => 32,
        PaintColor::Cyan => 36,
    }
}

pub uninterp spec fn painted_of(code: int, text: Seq<char>) -> Seq<char>;

/// Relies on `ansi_term::Colour::paint` and the `Display` of its result:
/// the text wrapped in the colour's ANSI escape codes, a function of the
/// colour and the text alone.
#[verifier::external_body]
pub(crate) fn paint(color: PaintColor, text: &str) -> (r: String)
    ensures
        r@ == painted_of(color_code(color), text@),
{
    let c = match color {
        PaintColor::Red => ansi_term::Colour::Red,
        PaintColor::Green => ansi_term::Colour::Green,
        PaintColor::Cyan => ansi_term::Colour::Cyan,
    };
    format!("{}", c.paint(text))
}

/// The text painted in the given colour when colour output is on, and the
/// text itself when it is off.
pub open spec fn colorize_spec(color: PaintColor, text: Seq<char>, display_color: bool) -> Seq<
    char,
> {
    if display_color {
        painted_of(color_code(color), text)
    } else {
        text
    }
}

/// Paint a piece of text in a colour role, or pass it through unchanged when
/// colour output is off.
pub fn colorize(color: PaintColor, text: &str, display_color: bool) -> (r: String)
    ensures
        r@ == colorize_spec(color, text@, display_color),
{
    if display_color {
        paint(color, text)
    } else {
        text.to_owned()
    }
}

} // verus!
