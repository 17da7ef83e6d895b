//! Colors: the identifiers a configuration may name, and what painting a
//! span of text with one of them adds to it.

use crate::text::same_text;
use crate::text::TextBuilder;
use vstd::prelude::*;

verus! {

/// Why a table could not be set up.
#[derive(Clone, Copy, Debug, PartialEq, Eq, Structural)]
pub enum RenderError {
    /// A color identifier that the library does not know.
    InvalidColor,
}

/// A color of the terminal's basic palette. `Default` leaves text as it is.
#[derive(Clone, Copy, Debug, PartialEq, Eq, Structural)]
pub enum Color {
    Default,
    Black,
    Red,
    Green,
    Yellow,
    Blue,
    Magenta,
    Cyan,
    White,
}

impl Color {
    /// The color that an identifier names, if it names one. Identifiers are
    /// lower case and matched exactly.
    pub open spec fn named(name: Seq<char>) -> Option<Color> {
        if name == "default"@ {
            Some(Color::Default)
        } else if name == "black"@ {
            Some(Color::Black)
        } else if name == "red"@ {
            Some(Color::Red)
        } else if name == "green"@ {
            Some(Color::Green)
        } else if name == "yellow"@ {
            Some(Color::Yellow)
        } else if name == "blue"@ {
            Some(Color::Blue)
        } else if name == "magenta"@ {
            Some(Color::Magenta)
        } else if name == "cyan"@ {
            Some(Color::Cyan)
        } else if name == "white"@ {
            Some(Color::White)
        } else {
            None
        }
    }

    /// Reads a color identifier. An identifier that names no color is an
    /// error; no color is ever guessed.
    pub fn from_name(name: &str) -> (res: Result<Color, RenderError>)
        ensures
            res == match Color::named(name@) {
                Some(c) => Ok::<Color, RenderError>(c),
                None => Err::<Color, RenderError>(RenderError::InvalidColor),
            },
    {
        if same_text(name, "default") {
            Ok(Color::Default)
        } else if same_text(name, "black") {
            Ok(Color::Black)
        } else if same_text(name, "red") {
            Ok(Color::Red)
        } else if same_text(name, "green") {
            Ok(Color::Green)
        } else if same_text(name, "yellow") {
            Ok(Color::Yellow)
        } else if same_text(name, "blue") {
            Ok(Color::Blue)
        } else if same_text(name, "magenta") {
            Ok(Color::Magenta)
        } else if same_text(name, "cyan") {
            Ok(Color::Cyan)
        } else if same_text(name, "white") {
            Ok(Color::White)
        } else {
            Err(RenderError::InvalidColor)
        }
    }

    /// The control sequence that switches the color on. `Default` has none.
    pub open spec fn start_sequence(self) -> Seq<char> {
        match self {
            Color::Default => ""@,
            Color::Black => "\x1b[30m"@,
            Color::Red => "\x1b[31m"@,
            Color::Green => "\x1b[32m"@,
            Color::Yellow => "\x1b[33m"@,
            Color::Blue => "\x1b[34m"@,
            Color::Magenta => "\x1b[35m"@,
            Color::Cyan => "\x1b[36m"@,
            Color::White => "\x1b[37m"@,
        }
    }

    /// The control sequence that switches the color off again. `Default`
    /// has none.
    pub open spec fn end_sequence(self) -> Seq<char> {
        match self {
            Color::Default => ""@,
            _ => "\x1b[0m"@,
        }
    }

    /// The text of `start_sequence`.
    pub fn start_code(self) -> (s: &'static str)
        ensures
            s@ == self.start_sequence(),
    {
        match self {
            Color::Default => "",
            Color::Black => "\x1b[30m",
            Color::Red => "\x1b[31m",
            Color::Green => "\x1b[32m",
            Color::Yellow => "\x1b[33m",
            Color::Blue => "\x1b[34m",
            Color::Magenta => "\x1b[35m",
            Color::Cyan => "\x1b[36m",
            Color::White => "\x1b[37m",
        }
    }

    /// The text of `end_sequence`.
    pub fn end_code(self) -> (s: &'static str)
        ensures
            s@ == self.end_sequence(),
    {
        match self {
            Color::Default => "",
            _ => "\x1b[0m",
        }
    }
}

/// `text` painted in `color`: the text between the color's two control
/// sequences.
pub open spec fn painted(color: Color, text: Seq<char>) -> Seq<char> {
    color.start_sequence() + text + color.end_sequence()
}

/// Painting with `Default` changes nothing.
pub proof fn lemma_painted_default(text: Seq<char>)
    ensures
        painted(Color::Default, text) == text,
{
    reveal_strlit("");
    assert(painted(Color::Default, text) =~= text);
}

/// Appends `text`, painted in `color`, to `out`.
pub fn push_painted(out: &mut TextBuilder, color: Color, text: &str)
    requires
        old(out).wf(),
    ensures
        final(out).wf(),
        final(out)@ == old(out)@ + painted(color, text@),
{
    out.push_str(color.start_code());
    out.push_str(text);
    out.push_str(color.end_code());
    assert(out@ =~= old(out)@ + painted(color, text@));
}

/// `text` painted in `color`, as a string of its own.
pub fn paint(color: Color, text: &str) -> (s: String)
    ensures
        s@ == painted(color, text@),
{
    let mut out = TextBuilder::new();
    push_painted(&mut out, color, text);
    assert(out@ =~= painted(color, text@));
    out.finish()
}

} // verus!
