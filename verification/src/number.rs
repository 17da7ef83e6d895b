//! Numbers as decimal text.

use crate::text::TextBuilder;
use vstd::prelude::*;

verus! {

/// The character of a decimal digit.
pub open spec fn digit_char(d: nat) -> char
    recommends
        d < 10,
{
    if d == 0 {
        '0'
    } else if d == 1 {
        '1'
    } else if d == 2 {
        '2'
    } else if d == 3 {
        '3'
    } else if d == 4 {
        '4'
    } else if d == 5 {
        '5'
    } else if d == 6 {
        '6'
    } else if d == 7 {
        '7'
    } else if d == 8 {
        '8'
    } else {
        '9'
    }
}

/// A number in decimal notation: no sign, no leading zero, `0` for zero.
pub open spec fn decimal_text(n: nat) -> Seq<char>
    decreases n,
{
    if n < 10 {
        seq![digit_char(n)]
    } else {
        decimal_text(n / 10).push(digit_char(n % 10))
    }
}

/// A number under a hundred as two digits, with a leading zero if need be.
pub open spec fn two_digits(n: nat) -> Seq<char>
    recommends
        n < 100,
{
    seq![digit_char(n / 10), digit_char(n % 10)]
}

/// The characters of a run of digits that was collected lowest digit first.
pub open spec fn low_digits_first(digits: Seq<u8>) -> Seq<char> {
    Seq::new(digits.len(), |k: int| digit_char(digits[digits.len() - 1 - k] as nat))
}

/// The text of one digit.
pub(crate) fn digit_text(d: u8) -> (s: &'static str)
    requires
        d < 10,
    ensures
        s@ == seq![digit_char(d as nat)],
{
    proof {
        reveal_strlit("0");
        reveal_strlit("1");
        reveal_strlit("2");
        reveal_strlit("3");
        reveal_strlit("4");
        reveal_strlit("5");
        reveal_strlit("6");
        reveal_strlit("7");
        reveal_strlit("8");
        reveal_strlit("9");
    }
    let s = if d == 0 {
        "0"
    } else if d == 1 {
        "1"
    } else if d == 2 {
        "2"
    } else if d == 3 {
        "3"
    } else if d == 4 {
        "4"
    } else if d == 5 {
        "5"
    } else if d == 6 {
        "6"
    } else if d == 7 {
        "7"
    } else if d == 8 {
        "8"
    } else {
        "9"
    };
    assert(s@ =~= seq![digit_char(d as nat)]);
    s
}

/// Appends a number in decimal notation.
pub fn push_decimal(out: &mut TextBuilder, n: u64)
    requires
        old(out).wf(),
    ensures
        final(out).wf(),
        final(out)@ == old(out)@ + decimal_text(n as nat),
{
    let mut digits: Vec<u8> = Vec::new();
    let mut rest: u64 = n;
    assert(decimal_text(rest as nat) + low_digits_first(digits@) =~= decimal_text(n as nat));
    while rest >= 10
        invariant
            forall|k: int| 0 <= k < digits.len() ==> digits[k] < 10,
            decimal_text(n as nat) == decimal_text(rest as nat) + low_digits_first(digits@),
        decreases rest,
    {
        let d: u8 = (rest % 10) as u8;
        proof {
            let grown = digits@.push(d);
            assert(low_digits_first(grown) =~= seq![digit_char(d as nat)] + low_digits_first(
                digits@,
            ));
            assert(decimal_text((rest / 10) as nat) + low_digits_first(grown) =~= decimal_text(
                rest as nat,
            ) + low_digits_first(digits@));
        }
        digits.push(d);
        rest = rest / 10;
    }
    out.push_str(digit_text(rest as u8));
    let mut i: usize = digits.len();
    assert(low_digits_first(digits@).take(0) =~= Seq::<char>::empty());
    assert(old(out)@ + decimal_text(rest as nat) + Seq::<char>::empty() =~= old(out)@
        + decimal_text(rest as nat));
    while i > 0
        invariant
            i <= digits.len(),
            out.wf(),
            rest < 10,
            forall|k: int| 0 <= k < digits.len() ==> digits[k] < 10,
            out@ == old(out)@ + decimal_text(rest as nat) + low_digits_first(digits@).take(
                digits.len() - i,
            ),
        decreases i,
    {
        i = i - 1;
        out.push_str(digit_text(digits[i]));
        proof {
            let all = low_digits_first(digits@);
            let n_done = digits.len() - i - 1;
            assert(all.take(n_done + 1) =~= all.take(n_done) + seq![
                digit_char(digits[i as int] as nat),
            ]);
            assert(out@ =~= old(out)@ + decimal_text(rest as nat) + all.take(n_done + 1));
        }
    }
    assert(low_digits_first(digits@).take(digits.len() as int) =~= low_digits_first(digits@));
    assert(out@ =~= old(out)@ + decimal_text(n as nat));
}

/// Appends a number under a hundred as two digits.
pub(crate) fn push_two_digits(out: &mut TextBuilder, n: u8)
    requires
        old(out).wf(),
        n < 100,
    ensures
        final(out).wf(),
        final(out)@ == old(out)@ + two_digits(n as nat),
{
    out.push_str(digit_text(n / 10));
    out.push_str(digit_text(n % 10));
    assert(out@ =~= old(out)@ + two_digits(n as nat));
}

/// A number in decimal notation.
pub fn format_decimal(n: u64) -> (s: String)
    ensures
        s@ == decimal_text(n as nat),
{
    let mut out = TextBuilder::new();
    push_decimal(&mut out, n);
    assert(out@ =~= decimal_text(n as nat));
    out.finish()
}

} // verus!
