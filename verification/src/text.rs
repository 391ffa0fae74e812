//! The human-readable dump of a table: sixteen rows of sixteen entries.

use vstd::prelude::*;

verus! {

/// `String::push` appends the given character to the end of the string.
pub assume_specification[ String::push ](text: &mut String, ch: char)
    ensures
        final(text)@ == old(text)@.push(ch),
;

/// The character of a decimal digit.
pub open spec fn digit_char(digit: int) -> char {
    seq!['0', '1', '2', '3', '4', '5', '6', '7', '8', '9'][digit]
}

/// A byte in decimal, padded with blanks on the right to three characters.
pub open spec fn padded_decimal(value: u8) -> Seq<char> {
    let n = value as int;
    if n < 10 {
        seq![digit_char(n), ' ', ' ']
    } else if n < 100 {
        seq![digit_char(n / 10), digit_char(n % 10), ' ']
    } else {
        seq![digit_char(n / 100), digit_char(n / 10 % 10), digit_char(n % 10)]
    }
}

/// The entries of one row, each followed by a comma and a blank.
pub open spec fn entries_text(values: Seq<u8>) -> Seq<char>
    decreases values.len(),
{
    if values.len() == 0 {
        Seq::empty()
    } else {
        entries_text(values.drop_last()) + padded_decimal(values.last()) + seq![',', ' ']
    }
}

/// Row `row` of the dump: a tab, sixteen entries, a line feed.
pub open spec fn row_text(values: Seq<u8>, row: int) -> Seq<char> {
    seq!['\t'] + entries_text(values.subrange(16 * row, 16 * row + 16)) + seq!['\n']
}

/// The first `rows` rows of the dump.
pub open spec fn rows_text(values: Seq<u8>, rows: nat) -> Seq<char>
    decreases rows,
{
    if rows == 0 {
        Seq::empty()
    } else {
        rows_text(values, (rows - 1) as nat) + row_text(values, rows - 1)
    }
}

/// The whole dump of a table of 256 entries.
pub open spec fn dump_text(values: Seq<u8>) -> Seq<char> {
    "PermutationTable {\n"@ + rows_text(values, 16) + seq!['}']
}

/// The character of a decimal digit.
fn digit_to_char(digit: u8) -> (ch: char)
    requires
        digit < 10,
    ensures
        ch == digit_char(digit as int),
{
    if digit == 0 {
        '0'
    } else if digit == 1 {
        '1'
    } else if digit == 2 {
        '2'
    } else if digit == 3 {
        '3'
    } else if digit == 4 {
        '4'
    } else if digit == 5 {
        '5'
    } else if digit == 6 {
        '6'
    } else if digit == 7 {
        '7'
    } else if digit == 8 {
        '8'
    } else {
        '9'
    }
}

/// Appends a byte in decimal, padded on the right to three characters.
pub fn push_padded(text: &mut String, value: u8)
    ensures
        final(text)@ == old(text)@ + padded_decimal(value),
{
    if value < 10 {
        text.push(digit_to_char(value));
        text.push(' ');
        text.push(' ');
    } else if value < 100 {
        text.push(digit_to_char(value / 10));
        text.push(digit_to_char(value % 10));
        text.push(' ');
    } else {
        text.push(digit_to_char(value / 100));
        text.push(digit_to_char(value / 10 % 10));
        text.push(digit_to_char(value % 10));
    }
}

/// Renders the dump of a table.
pub fn render(values: &[u8; 256]) -> (text: String)
    ensures
        text@ == dump_text(values@),
{
    let mut text: String = "PermutationTable {\n".to_owned();
    let mut row: usize = 0;
    while row < 16
        invariant
            row <= 16,
            text@ == "PermutationTable {\n"@ + rows_text(values@, row as nat),
        decreases 16 - row,
    {
        text.push('\t');
        let ghost start = text@;
        let mut column: usize = 0;
        while column < 16
            invariant
                column <= 16,
                row < 16,
                text@ == start + entries_text(
                    values@.subrange(16 * row as int, 16 * row as int + column as int),
                ),
            decreases 16 - column,
        {
            proof {
                let wider = values@.subrange(16 * row as int, 16 * row as int + column as int + 1);
                assert(wider.drop_last() =~= values@.subrange(
                    16 * row as int,
                    16 * row as int + column as int,
                ));
                assert(wider.last() == values@[16 * row as int + column as int]);
            }
            push_padded(&mut text, values[row * 16 + column]);
            text.push(',');
            text.push(' ');
            column = column + 1;
        }
        text.push('\n');
        row = row + 1;
    }
    text.push('}');
    text
}

} // verus!
