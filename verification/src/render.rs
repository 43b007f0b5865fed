//! Text forms of a sprite, of the display and of an instruction, for a
//! terminal or a log.

use vstd::prelude::*;
use vstd::string::StringExecFns;

use crate::guest_graphics::{cell_index, lemma_row_bit_mask, row_bit, ChipDisplay, Sprite};
use crate::instruction::Instruction;

verus! {

/// The text of one sprite pixel.
pub open spec fn bit_text(on: bool) -> Seq<char> {
    if on {
        "1"@
    } else {
        "0"@
    }
}

/// The text of the first `upto` pixels of a sprite row, left to right.
pub open spec fn row_text(row: u8, upto: int) -> Seq<char>
    decreases upto,
{
    if upto <= 0 {
        Seq::empty()
    } else {
        row_text(row, upto - 1) + bit_text(row_bit(row, upto - 1))
    }
}

/// The text of the first `upto` rows: eight pixels and a line end each.
pub open spec fn rows_text(rows: Seq<u8>, upto: int) -> Seq<char>
    decreases upto,
{
    if upto <= 0 {
        Seq::empty()
    } else {
        rows_text(rows, upto - 1) + row_text(rows[upto - 1], 8) + "\n"@
    }
}

/// The text of a sprite: a heading, then its rows.
pub open spec fn sprite_text(rows: Seq<u8>) -> Seq<char> {
    "Debug drawing for sprite: \n"@ + rows_text(rows, rows.len() as int)
}

impl Sprite {
    /// The sprite as text: a heading, then a line of eight digits for each
    /// row, 1 for a pixel that is set and 0 for one that is not.
    pub fn render(&self) -> (text: String)
        ensures
            text@ == sprite_text(self@),
    {
        let mut text: String = String::from_str("Debug drawing for sprite: \n");
        let mut i: usize = 0;
        assert(text@ =~= "Debug drawing for sprite: \n"@ + rows_text(self@, 0));
        while i < 15 && i < self.height as usize
            invariant
                i <= self@.len() <= 15,
                self@.len() == (if self.height <= 15 { self.height as int } else { 15 }),
                text@ == "Debug drawing for sprite: \n"@ + rows_text(self@, i as int),
            decreases 15 - i,
        {
            let val: u8 = self.sprite_data[i];
            let ghost before = text@;
            let mut j: u8 = 0;
            assert(text@ =~= before + row_text(val, 0));
            while j < 8
                invariant
                    j <= 8,
                    text@ == before + row_text(val, j as int),
                decreases 8 - j,
            {
                let cur_bit: bool = val & (128u8 >> j) != 0;
                proof {
                    lemma_row_bit_mask(val, j);
                }
                text.append(if cur_bit { "1" } else { "0" });
                assert(text@ =~= before + row_text(val, j + 1));
                j += 1;
            }
            text.append("\n");
            assert(text@ =~= "Debug drawing for sprite: \n"@ + rows_text(self@, i + 1));
            i += 1;
        }
        text
    }
}

/// The text of one pixel of the display: a black square for a pixel that
/// is on, a white square for one that is off, and a space.
pub open spec fn pixel_text(on: bool) -> Seq<char> {
    if on {
        "\u{2B1B} "@
    } else {
        "\u{2B1C} "@
    }
}

/// The text of the first `upto` pixels of row `y`, left to right.
pub open spec fn line_text(front: Seq<bool>, y: int, upto: int) -> Seq<char>
    decreases upto,
{
    if upto <= 0 {
        Seq::empty()
    } else {
        line_text(front, y, upto - 1) + pixel_text(front[cell_index(upto - 1, y)])
    }
}

/// The text of the first `upto` rows of the display, top to bottom, each
/// with its line end.
pub open spec fn lines_text(front: Seq<bool>, upto: int) -> Seq<char>
    decreases upto,
{
    if upto <= 0 {
        Seq::empty()
    } else {
        lines_text(front, upto - 1) + line_text(front, upto - 1, 64) + "\n\r"@
    }
}

impl ChipDisplay {
    /// The front buffer as text: thirty-two lines of sixty-four squares.
    pub fn render(&self) -> (text: String)
        ensures
            text@ == lines_text(self@.front, 32),
    {
        let mut text: String = String::new();
        let mut y: u8 = 0;
        assert(text@ =~= lines_text(self@.front, 0));
        while y < 32
            invariant
                y <= 32,
                text@ == lines_text(self@.front, y as int),
            decreases 32 - y,
        {
            let ghost before = text@;
            let mut x: u8 = 0;
            assert(text@ =~= before + line_text(self@.front, y as int, 0));
            while x < 64
                invariant
                    x <= 64,
                    y < 32,
                    text@ == before + line_text(self@.front, y as int, x as int),
                decreases 64 - x,
            {
                let lit: bool = match self.get_pixel(x, y) {
                    Some(pixel) => pixel == 1,
                    None => false,
                };
                text.append(if lit { "\u{2B1B} " } else { "\u{2B1C} " });
                assert(text@ =~= before + line_text(self@.front, y as int, x + 1));
                x += 1;
            }
            text.append("\n\r");
            assert(text@ =~= lines_text(self@.front, y + 1));
            y += 1;
        }
        text
    }
}

/// The text of a hex digit, in lower case.
pub open spec fn hex_digit_text(digit: int) -> Seq<char> {
    if digit == 0 {
        "0"@
    } else if digit == 1 {
        "1"@
    } else if digit == 2 {
        "2"@
    } else if digit == 3 {
        "3"@
    } else if digit == 4 {
        "4"@
    } else if digit == 5 {
        "5"@
    } else if digit == 6 {
        "6"@
    } else if digit == 7 {
        "7"@
    } else if digit == 8 {
        "8"@
    } else if digit == 9 {
        "9"@
    } else if digit == 10 {
        "a"@
    } else if digit == 11 {
        "b"@
    } else if digit == 12 {
        "c"@
    } else if digit == 13 {
        "d"@
    } else if digit == 14 {
        "e"@
    } else {
        "f"@
    }
}

/// The text of a byte in hex, in lower case and without leading zero.
pub open spec fn hex_text(byte: u8) -> Seq<char> {
    if byte < 16 {
        hex_digit_text(byte as int)
    } else {
        hex_digit_text(byte as int / 16) + hex_digit_text(byte as int % 16)
    }
}

/// The text of an instruction: a heading, then each of its two bytes in
/// hex on a line of its own.
pub open spec fn instruction_text(data: Seq<u8>) -> Seq<char> {
    "\r\n Instruction display:"@ + "\r\n "@ + hex_text(data[0]) + "\r\n "@ + hex_text(data[1])
}

fn hex_digit(digit: u8) -> (text: &'static str)
    requires
        digit < 16,
    ensures
        text@ == hex_digit_text(digit as int),
{
    match digit {
        0 => "0",
        1 => "1",
        2 => "2",
        3 => "3",
        4 => "4",
        5 => "5",
        6 => "6",
        7 => "7",
        8 => "8",
        9 => "9",
        10 => "a",
        11 => "b",
        12 => "c",
        13 => "d",
        14 => "e",
        _ => "f",
    }
}

fn append_hex(text: &mut String, byte: u8)
    ensures
        final(text)@ == old(text)@ + hex_text(byte),
{
    if byte >= 16 {
        text.append(hex_digit(byte / 16));
    }
    text.append(hex_digit(byte % 16));
    assert(text@ =~= old(text)@ + hex_text(byte));
}

impl Instruction {
    /// The instruction as text, for a message about it.
    pub fn render(&self) -> (text: String)
        ensures
            text@ == instruction_text(self.data@),
    {
        let mut text: String = String::from_str("\r\n Instruction display:");
        text.append("\r\n ");
        append_hex(&mut text, self.data[0]);
        text.append("\r\n ");
        append_hex(&mut text, self.data[1]);
        text
    }
}

} // verus!
