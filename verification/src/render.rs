//! Rendering a record as text: decimal numbers in columns of fixed width.

use crate::counts::{Counts, FileInfo};
use vstd::prelude::*;
use vstd::string::StringExecFns;

verus! {

/// The least width of a column.
pub const FIELD_WIDTH: usize = 8;

/// The character of a decimal digit.
pub open spec fn digit(d: nat) -> char {
    if d == 0 {
        '0'
    } else if d == 1 {
        '1'
    } else if d == 2 {
        '2'
    } else if d == 3 {
        '3'
    } else if d == 4 {
        '4'
    } else if d == 5 {
        '5'
    } else if d == 6 {
        '6'
    } else if d == 7 {
        '7'
    } else if d == 8 {
        '8'
    } else {
        '9'
    }
}

/// A number written in decimal, without sign or leading zeros.
pub open spec fn decimal(n: nat) -> Seq<char>
    decreases n,
{
    if n < 10 {
        seq![digit(n)]
    } else {
        decimal(n / 10).push(digit(n % 10))
    }
}

/// `n` spaces.
pub open spec fn spaces(n: nat) -> Seq<char> {
    Seq::new(n, |i: int| ' ')
}

/// `s` moved to the right end of a column of `width` characters; a longer
/// `s` is left as it is.
pub open spec fn right_justified(s: Seq<char>, width: nat) -> Seq<char> {
    if s.len() >= width {
        s
    } else {
        spaces((width - s.len()) as nat) + s
    }
}

/// One column: a tally in decimal, right-justified.
pub open spec fn field(n: nat) -> Seq<char> {
    right_justified(decimal(n), FIELD_WIDTH as nat)
}

/// The columns of a record that are asked for, in the order lines, words,
/// characters, with nothing between them and nothing for a column that is
/// not asked for.
pub open spec fn fields(c: Counts, show_lines: bool, show_words: bool, show_chars: bool) -> Seq<
    char,
> {
    (if show_lines {
        field(c.lines)
    } else {
        Seq::empty()
    }) + (if show_words {
        field(c.words)
    } else {
        Seq::empty()
    }) + (if show_chars {
        field(c.chars)
    } else {
        Seq::empty()
    })
}

/// The digits of a number given from the least significant one, written from
/// the most significant one.
spec fn written(digits: Seq<u8>) -> Seq<char> {
    Seq::new(digits.len(), |i: int| digit(digits[digits.len() - 1 - i] as nat))
}

fn digit_str(d: u8) -> (s: &'static str)
    requires
        d < 10,
    ensures
        s@ == seq![digit(d as nat)],
{
    proof {
        reveal_strlit("0");
        reveal_strlit("1");
        reveal_strlit("2");
        reveal_strlit("3");
        reveal_strlit("4");
        reveal_strlit("5");
        reveal_strlit("6");
        reveal_strlit("7");
        reveal_strlit("8");
        reveal_strlit("9");
    }
    let s = if d == 0 {
        "0"
    } else if d == 1 {
        "1"
    } else if d == 2 {
        "2"
    } else if d == 3 {
        "3"
    } else if d == 4 {
        "4"
    } else if d == 5 {
        "5"
    } else if d == 6 {
        "6"
    } else if d == 7 {
        "7"
    } else if d == 8 {
        "8"
    } else {
        "9"
    };
    assert(s@ =~= seq![digit(d as nat)]);
    s
}

/// The decimal digits of `value`, the least significant one first.
fn digits_of(value: usize) -> (digits: Vec<u8>)
    ensures
        written(digits@) == decimal(value as nat),
        digits@.len() > 0,
        forall|i: int| 0 <= i < digits@.len() ==> digits@[i] < 10,
{
    let mut digits: Vec<u8> = Vec::new();
    let mut rest: usize = value;
    assert(decimal(rest as nat) + written(digits@) =~= decimal(value as nat));
    while rest >= 10
        invariant
            decimal(rest as nat) + written(digits@) == decimal(value as nat),
            forall|i: int| 0 <= i < digits@.len() ==> digits@[i] < 10,
        decreases rest,
    {
        let d: u8 = (rest % 10) as u8;
        proof {
            let before = digits@;
            let after = digits@.push(d);
            assert(written(after) =~= seq![digit(d as nat)] + written(before));
            assert(decimal((rest / 10) as nat) + written(after) =~= decimal(rest as nat) + written(
                before,
            ));
        }
        digits.push(d);
        rest = rest / 10;
    }
    proof {
        let before = digits@;
        let after = digits@.push(rest as u8);
        assert(written(after) =~= decimal(rest as nat) + written(before));
    }
    digits.push(rest as u8);
    digits
}

/// Appends one column to `out`.
fn push_field(out: &mut String, value: usize)
    ensures
        final(out)@ == old(out)@ + field(value as nat),
{
    let digits = digits_of(value);
    let n = digits.len();
    let mut pad: usize = 0;
    if n < FIELD_WIDTH {
        while pad < FIELD_WIDTH - n
            invariant
                n < FIELD_WIDTH,
                pad <= FIELD_WIDTH - n,
                out@ == old(out)@ + spaces(pad as nat),
            decreases FIELD_WIDTH - n - pad,
        {
            proof {
                reveal_strlit(" ");
                assert(spaces(pad as nat) + " "@ =~= spaces((pad + 1) as nat));
            }
            out.append(" ");
            pad = pad + 1;
        }
    }
    let ghost padded = out@;
    assert(padded =~= old(out)@ + spaces(pad as nat));
    let mut i: usize = n;
    while i > 0
        invariant
            i <= n,
            n == digits@.len(),
            forall|j: int| 0 <= j < digits@.len() ==> digits@[j] < 10,
            out@ == padded + written(digits@).take(n - i),
        decreases i,
    {
        i = i - 1;
        proof {
            let w = written(digits@);
            assert(w.take(n - i) =~= w.take(n - i - 1) + seq![digit(digits@[i as int] as nat)]);
        }
        out.append(digit_str(digits[i]));
    }
    proof {
        let w = written(digits@);
        assert(w.take(n as int) =~= w);
        assert(padded + w =~= old(out)@ + field(value as nat));
    }
}

impl FileInfo {
    /// The columns of this record that are asked for, as one string.
    pub fn format(&self, show_lines: bool, show_words: bool, show_chars: bool) -> (out: String)
        ensures
            out@ == fields(self@, show_lines, show_words, show_chars),
    {
        let mut out = String::new();
        if show_lines {
            push_field(&mut out, self.lines);
        }
        if show_words {
            push_field(&mut out, self.words);
        }
        if show_chars {
            push_field(&mut out, self.chars);
        }
        assert(out@ =~= fields(self@, show_lines, show_words, show_chars));
        out
    }
}

} // verus!
