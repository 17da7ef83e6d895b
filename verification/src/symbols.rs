//! The box-drawing glyphs: a fixed table from the place of a glyph in a
//! frame to the character drawn there.

use vstd::prelude::*;

verus! {

pub const HORIZONTAL: &'static str = "─";

pub const VERTICAL: &'static str = "│";

pub const TOP_LEFT: &'static str = "┌";

pub const BOTTOM_LEFT: &'static str = "└";

pub const TOP_RIGHT: &'static str = "┐";

pub const BOTTOM_RIGHT: &'static str = "┘";

pub const T_DOWN: &'static str = "┬";

pub const T_UP: &'static str = "┴";

pub const T_LEFT: &'static str = "├";

pub const T_RIGHT: &'static str = "┤";

pub const CROSS: &'static str = "┼";

/// A place in a frame that a glyph is drawn at.
#[derive(Clone, Copy, Debug, PartialEq, Eq, Structural)]
pub enum BorderGlyph {
    Horizontal,
    Vertical,
    TopLeft,
    BottomLeft,
    TopRight,
    BottomRight,
    TDown,
    TUp,
    TLeft,
    TRight,
    Cross,
}

/// The character drawn at a place.
pub open spec fn glyph_char(g: BorderGlyph) -> char {
    match g {
        BorderGlyph::Horizontal => '─',
        BorderGlyph::Vertical => '│',
        BorderGlyph::TopLeft => '┌',
        BorderGlyph::BottomLeft => '└',
        BorderGlyph::TopRight => '┐',
        BorderGlyph::BottomRight => '┘',
        BorderGlyph::TDown => '┬',
        BorderGlyph::TUp => '┴',
        BorderGlyph::TLeft => '├',
        BorderGlyph::TRight => '┤',
        BorderGlyph::Cross => '┼',
    }
}

/// The text drawn at a place: its one character.
pub open spec fn glyph_text(g: BorderGlyph) -> Seq<char> {
    seq![glyph_char(g)]
}

/// Looks a glyph up.
pub fn glyph(g: BorderGlyph) -> (s: &'static str)
    ensures
        s@ == glyph_text(g),
{
    proof {
        reveal_strlit("─");
        reveal_strlit("│");
        reveal_strlit("┌");
        reveal_strlit("└");
        reveal_strlit("┐");
        reveal_strlit("┘");
        reveal_strlit("┬");
        reveal_strlit("┴");
        reveal_strlit("├");
        reveal_strlit("┤");
        reveal_strlit("┼");
    }
    let s = match g {
        BorderGlyph::Horizontal => HORIZONTAL,
        BorderGlyph::Vertical => VERTICAL,
        BorderGlyph::TopLeft => TOP_LEFT,
        BorderGlyph::BottomLeft => BOTTOM_LEFT,
        BorderGlyph::TopRight => TOP_RIGHT,
        BorderGlyph::BottomRight => BOTTOM_RIGHT,
        BorderGlyph::TDown => T_DOWN,
        BorderGlyph::TUp => T_UP,
        BorderGlyph::TLeft => T_LEFT,
        BorderGlyph::TRight => T_RIGHT,
        BorderGlyph::Cross => CROSS,
    };
    assert(s@ =~= glyph_text(g));
    s
}

} // verus!
