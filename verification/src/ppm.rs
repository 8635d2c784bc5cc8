//! The plain-text PPM image: its header and its pixel lines.

use vstd::prelude::*;
use crate::raster::Raster;

verus! {

/// A pixel as it is written: three channels of eight bits.
#[derive(Clone, Copy, Debug, PartialEq, Eq, Structural)]
pub struct Rgb {
    pub r: u8,
    pub g: u8,
    pub b: u8,
}

/// The character of the digit `d`.
pub open spec fn digit(d: int) -> char {
    if d == 0 {
        '0'
    } else if d == 1 {
        '1'
    } else if d == 2 {
        '2'
    } else if d == 3 {
        '3'
    } else if d == 4 {
        '4'
    } else if d == 5 {
        '5'
    } else if d == 6 {
        '6'
    } else if d == 7 {
        '7'
    } else if d == 8 {
        '8'
    } else {
        '9'
    }
}

/// The digit that the character `c` stands for.
pub open spec fn digit_value(c: char) -> int {
    if c == '0' {
        0
    } else if c == '1' {
        1
    } else if c == '2' {
        2
    } else if c == '3' {
        3
    } else if c == '4' {
        4
    } else if c == '5' {
        5
    } else if c == '6' {
        6
    } else if c == '7' {
        7
    } else if c == '8' {
        8
    } else {
        9
    }
}

/// Whether `c` is one of the ten digits.
pub open spec fn is_digit(c: char) -> bool {
    c == digit(digit_value(c))
}

/// The decimal numeral of `n`, without leading zeros.
pub open spec fn decimal(n: nat) -> Seq<char>
    decreases n,
{
    if n < 10 {
        seq![digit(n as int)]
    } else {
        decimal(n / 10).push(digit((n % 10) as int))
    }
}

/// The number that a string of digits denotes.
pub open spec fn numeral_value(s: Seq<char>) -> nat
    decreases s.len(),
{
    if s.len() == 0 {
        0
    } else {
        (10 * numeral_value(s.drop_last()) + digit_value(s.last())) as nat
    }
}

/// The three lines that open an image of the given size: the magic number,
/// width and height, and the largest channel value.
pub open spec fn header_spec(raster: Raster) -> Seq<char> {
    seq!['P', '3', '\n'] + decimal(raster.width as nat) + seq![' '] + decimal(raster.height as nat)
        + seq!['\n', '2', '5', '5', '\n']
}

impl Rgb {
    /// The pixel's line without its line end: red, green and blue as
    /// decimal numerals with one space between them.
    pub open spec fn color_string_spec(self) -> Seq<char> {
        decimal(self.r as nat) + seq![' '] + decimal(self.g as nat) + seq![' '] + decimal(
            self.b as nat,
        )
    }

    /// Writes the pixel as its line of the image, without the line end.
    pub fn color_string(&self) -> (line: String)
        ensures
            line@ == self.color_string_spec(),
    {
        let mut line = String::new();
        push_decimal(&mut line, self.r as u32);
        push_space(&mut line);
        push_decimal(&mut line, self.g as u32);
        push_space(&mut line);
        push_decimal(&mut line, self.b as u32);
        line
    }
}

/// Writes the header of an image of the given size, line ends included.
pub fn header(raster: &Raster) -> (text: String)
    ensures
        text@ == header_spec(*raster),
{
    proof {
        reveal_strlit("P3\n");
        reveal_strlit("\n255\n");
    }
    let mut text = String::new();
    text.append("P3\n");
    assert(text@ == seq!['P', '3', '\n']);
    push_decimal(&mut text, raster.width);
    push_space(&mut text);
    push_decimal(&mut text, raster.height);
    text.append("\n255\n");
    assert("\n255\n"@ == seq!['\n', '2', '5', '5', '\n']);
    text
}

fn push_space(text: &mut String)
    ensures
        final(text)@ == old(text)@ + seq![' '],
{
    proof {
        reveal_strlit(" ");
    }
    text.append(" ");
    assert(" "@ == seq![' ']);
}

fn push_digit(text: &mut String, d: u32)
    requires
        d < 10,
    ensures
        final(text)@ == old(text)@.push(digit(d as int)),
{
    proof {
        reveal_strlit("0");
        reveal_strlit("1");
        reveal_strlit("2");
        reveal_strlit("3");
        reveal_strlit("4");
        reveal_strlit("5");
        reveal_strlit("6");
        reveal_strlit("7");
        reveal_strlit("8");
        reveal_strlit("9");
    }
    let numeral: &str = if d == 0 {
        "0"
    } else if d == 1 {
        "1"
    } else if d == 2 {
        "2"
    } else if d == 3 {
        "3"
    } else if d == 4 {
        "4"
    } else if d == 5 {
        "5"
    } else if d == 6 {
        "6"
    } else if d == 7 {
        "7"
    } else if d == 8 {
        "8"
    } else {
        "9"
    };
    assert(numeral@ == seq![digit(d as int)]);
    text.append(numeral);
}

fn push_decimal(text: &mut String, n: u32)
    ensures
        final(text)@ == old(text)@ + decimal(n as nat),
    decreases n,
{
    if n >= 10 {
        push_decimal(text, n / 10);
    }
    push_digit(text, n % 10);
}

/// A decimal numeral denotes its number, is made of digits only, and has no
/// leading zero unless it is the numeral of zero or of a single digit.
pub proof fn lemma_decimal(n: nat)
    ensures
        numeral_value(decimal(n)) == n,
        decimal(n).len() >= 1,
        forall|i: int| 0 <= i < decimal(n).len() ==> is_digit(#[trigger] decimal(n)[i]),
        n >= 10 ==> decimal(n)[0] != '0',
    decreases n,
{
    if n < 10 {
        assert(decimal(n).drop_last() == Seq::<char>::empty());
        assert(numeral_value(decimal(n)) == 10 * numeral_value(decimal(n).drop_last())
            + digit_value(decimal(n).last()));
    } else {
        lemma_decimal(n / 10);
        assert(decimal(n).drop_last() == decimal(n / 10));
        if n / 10 < 10 {
            assert(decimal(n / 10)[0] == digit((n / 10) as int));
        }
    }
}

} // verus!
