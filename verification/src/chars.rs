//! The characters of a text: which of them occur, how often, and how many
//! of them take up room on a terminal.

use crate::color::painted;
use crate::color::Color;
use crate::text::repeated;
use vstd::prelude::*;

verus! {

/// No character of `text` is `c`.
pub open spec fn free_of(text: Seq<char>, c: char) -> bool {
    forall|i: int| 0 <= i < text.len() ==> text[i] != c
}

/// How often `c` occurs in `text`.
pub open spec fn count_of(text: Seq<char>, c: char) -> nat
    decreases text.len(),
{
    if text.len() == 0 {
        0
    } else if text.last() == c {
        count_of(text.drop_last(), c) + 1
    } else {
        count_of(text.drop_last(), c)
    }
}

/// Whether `c` is a decimal digit.
pub open spec fn is_digit(c: char) -> bool {
    c == '0' || c == '1' || c == '2' || c == '3' || c == '4' || c == '5' || c == '6' || c == '7'
        || c == '8' || c == '9'
}

/// The characters that the control sequences of colors are made of.
pub open spec fn style_char(c: char) -> bool {
    c == '\x1b' || c == '[' || c == 'm' || is_digit(c)
}

/// Whether a reader of control sequences is inside one after a character.
/// A sequence starts with the escape character and ends with the next `m`.
pub open spec fn inside_after(inside: bool, c: char) -> bool {
    if inside {
        c != 'm'
    } else {
        c == '\x1b'
    }
}

/// The number of characters of `text` that take up room: those that are
/// not part of a control sequence. `inside` says whether the text starts
/// within a sequence.
pub open spec fn visible_width(text: Seq<char>, inside: bool) -> nat
    decreases text.len(),
{
    if text.len() == 0 {
        0
    } else {
        let shows: nat = if !inside && text[0] != '\x1b' {
            1
        } else {
            0
        };
        shows + visible_width(text.drop_first(), inside_after(inside, text[0]))
    }
}

/// Whether `text` ends within a control sequence.
pub open spec fn ends_inside(text: Seq<char>, inside: bool) -> bool
    decreases text.len(),
{
    if text.len() == 0 {
        inside
    } else {
        ends_inside(text.drop_first(), inside_after(inside, text[0]))
    }
}

/// A text put together of two is free of a character exactly when both
/// parts are.
pub proof fn lemma_free_concat(a: Seq<char>, b: Seq<char>, c: char)
    ensures
        free_of(a + b, c) == (free_of(a, c) && free_of(b, c)),
{
    if free_of(a + b, c) {
        assert forall|i: int| 0 <= i < a.len() implies a[i] != c by {
            assert((a + b)[i] == a[i]);
        }
        assert forall|i: int| 0 <= i < b.len() implies b[i] != c by {
            assert((a + b)[i + a.len()] == b[i]);
        }
    }
}

/// A repetition is free of a character that its unit is free of.
pub proof fn lemma_free_repeated(unit: Seq<char>, count: nat, c: char)
    requires
        free_of(unit, c),
    ensures
        free_of(repeated(unit, count), c),
    decreases count,
{
    if count > 0 {
        lemma_free_repeated(unit, (count - 1) as nat, c);
        lemma_free_concat(repeated(unit, (count - 1) as nat), unit, c);
    }
}

/// The control sequences of a color are made of style characters.
pub proof fn lemma_free_sequences(color: Color, c: char)
    requires
        !style_char(c),
    ensures
        free_of(color.start_sequence(), c),
        free_of(color.end_sequence(), c),
{
    reveal_strlit("");
    reveal_strlit("\x1b[30m");
    reveal_strlit("\x1b[31m");
    reveal_strlit("\x1b[32m");
    reveal_strlit("\x1b[33m");
    reveal_strlit("\x1b[34m");
    reveal_strlit("\x1b[35m");
    reveal_strlit("\x1b[36m");
    reveal_strlit("\x1b[37m");
    reveal_strlit("\x1b[0m");
}

/// Painting adds style characters only.
pub proof fn lemma_free_painted(color: Color, text: Seq<char>, c: char)
    requires
        !style_char(c),
        free_of(text, c),
    ensures
        free_of(painted(color, text), c),
{
    lemma_free_sequences(color, c);
    lemma_free_concat(color.start_sequence(), text, c);
    lemma_free_concat(color.start_sequence() + text, color.end_sequence(), c);
}

/// Counting in a text put together of two is counting in both.
pub proof fn lemma_count_concat(a: Seq<char>, b: Seq<char>, c: char)
    ensures
        count_of(a + b, c) == count_of(a, c) + count_of(b, c),
    decreases b.len(),
{
    if b.len() == 0 {
        assert(a + b =~= a);
    } else {
        assert((a + b).drop_last() =~= a + b.drop_last());
        lemma_count_concat(a, b.drop_last(), c);
    }
}

/// A text that is free of a character has it zero times.
pub proof fn lemma_count_free(text: Seq<char>, c: char)
    requires
        free_of(text, c),
    ensures
        count_of(text, c) == 0,
    decreases text.len(),
{
    if text.len() > 0 {
        lemma_count_free(text.drop_last(), c);
    }
}

/// Reading a text put together of two is reading the first and going on
/// with the second.
pub proof fn lemma_visible_concat(a: Seq<char>, b: Seq<char>, inside: bool)
    ensures
        visible_width(a + b, inside) == visible_width(a, inside) + visible_width(
            b,
            ends_inside(a, inside),
        ),
        ends_inside(a + b, inside) == ends_inside(b, ends_inside(a, inside)),
    decreases a.len(),
{
    if a.len() == 0 {
        assert(a + b =~= b);
    } else {
        assert((a + b).drop_first() =~= a.drop_first() + b);
        lemma_visible_concat(a.drop_first(), b, inside_after(inside, a[0]));
    }
}

/// Of a text without the escape character every character takes up room.
pub proof fn lemma_visible_plain(text: Seq<char>)
    requires
        free_of(text, '\x1b'),
    ensures
        visible_width(text, false) == text.len(),
        !ends_inside(text, false),
    decreases text.len(),
{
    if text.len() > 0 {
        lemma_visible_plain(text.drop_first());
    }
}

/// What follows the escape character, up to and with the first `m`, takes
/// up no room.
pub proof fn lemma_visible_sequence_tail(tail: Seq<char>)
    requires
        tail.len() > 0,
        tail.last() == 'm',
        forall|i: int| 0 <= i < tail.len() - 1 ==> tail[i] != 'm',
    ensures
        visible_width(tail, true) == 0,
        !ends_inside(tail, true),
    decreases tail.len(),
{
    let rest = tail.drop_first();
    if tail.len() > 1 {
        assert(tail[0] != 'm');
        assert(rest.last() == tail.last());
        lemma_visible_sequence_tail(rest);
    } else {
        assert(tail[0] == 'm');
        assert(visible_width(rest, false) == 0);
        assert(!ends_inside(rest, false));
    }
}

/// A control sequence takes up no room and leaves its reader outside.
pub proof fn lemma_visible_sequences(color: Color)
    ensures
        visible_width(color.start_sequence(), false) == 0,
        !ends_inside(color.start_sequence(), false),
        visible_width(color.end_sequence(), false) == 0,
        !ends_inside(color.end_sequence(), false),
{
    reveal_strlit("");
    reveal_strlit("\x1b[30m");
    reveal_strlit("\x1b[31m");
    reveal_strlit("\x1b[32m");
    reveal_strlit("\x1b[33m");
    reveal_strlit("\x1b[34m");
    reveal_strlit("\x1b[35m");
    reveal_strlit("\x1b[36m");
    reveal_strlit("\x1b[37m");
    reveal_strlit("\x1b[0m");
    let start = color.start_sequence();
    let end = color.end_sequence();
    if start.len() > 0 {
        lemma_visible_sequence_tail(start.drop_first());
    }
    if end.len() > 0 {
        lemma_visible_sequence_tail(end.drop_first());
    }
}

/// Of a painted text exactly the text takes up room, as long as the text
/// itself has no escape character.
pub proof fn lemma_visible_painted(color: Color, text: Seq<char>)
    requires
        free_of(text, '\x1b'),
    ensures
        visible_width(painted(color, text), false) == text.len(),
        !ends_inside(painted(color, text), false),
{
    lemma_visible_sequences(color);
    lemma_visible_plain(text);
    lemma_visible_concat(color.start_sequence(), text, false);
    lemma_visible_concat(color.start_sequence() + text, color.end_sequence(), false);
}

} // verus!
