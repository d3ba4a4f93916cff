//! The symbol table: which bars and wide spaces spell each character.
//!
//! The table is kept compact. It stores the five bars of a character and the
//! wide spaces between them; the thin spaces that separate neighbouring bars
//! are left out and put back by [`crate::padding::add_thin_space_padding`].

use crate::padding::is_bar_framed;
use crate::symbol::Bar::{ThinBar, WideBar, WideSpace};
use crate::symbol::{bars_among, wide_among, Bar};
use vstd::prelude::*;

verus! {

/// The characters that can be encoded: the digits, the upper-case letters, the
/// space and the seven signs `- . * $ / + %`.
pub open spec fn is_supported(character: char) -> bool {
    ||| '0' <= character <= '9'
    ||| 'A' <= character <= 'Z'
    ||| character == ' '
    ||| character == '-'
    ||| character == '.'
    ||| character == '*'
    ||| character == '$'
    ||| character == '/'
    ||| character == '+'
    ||| character == '%'
}

/// The table itself. A character outside it has the empty sequence.
pub open spec fn unpadded_sequence(character: char) -> Seq<Bar> {
    match character {
        '1' => seq![WideBar, ThinBar, WideSpace, ThinBar, ThinBar, WideBar],
        '2' => seq![ThinBar, WideBar, WideSpace, ThinBar, ThinBar, WideBar],
        '3' => seq![WideBar, WideBar, WideSpace, ThinBar, ThinBar, ThinBar],
        '4' => seq![ThinBar, ThinBar, WideSpace, WideBar, ThinBar, WideBar],
        '5' => seq![WideBar, ThinBar, WideSpace, WideBar, ThinBar, ThinBar],
        '6' => seq![ThinBar, WideBar, WideSpace, WideBar, ThinBar, ThinBar],
        '7' => seq![ThinBar, ThinBar, WideSpace, ThinBar, WideBar, WideBar],
        '8' => seq![WideBar, ThinBar, WideSpace, ThinBar, WideBar, ThinBar],
        '9' => seq![ThinBar, WideBar, WideSpace, ThinBar, WideBar, ThinBar],
        '0' => seq![ThinBar, ThinBar, WideSpace, WideBar, WideBar, ThinBar],
        'A' => seq![WideBar, ThinBar, ThinBar, WideSpace, ThinBar, WideBar],
        'B' => seq![ThinBar, WideBar, ThinBar, WideSpace, ThinBar, WideBar],
        'C' => seq![WideBar, WideBar, ThinBar, WideSpace, ThinBar, ThinBar],
        'D' => seq![ThinBar, ThinBar, WideBar, WideSpace, ThinBar, WideBar],
        'E' => seq![WideBar, ThinBar, WideBar, WideSpace, ThinBar, ThinBar],
        'F' => seq![ThinBar, WideBar, WideBar, WideSpace, ThinBar, ThinBar],
        'G' => seq![ThinBar, ThinBar, ThinBar, WideSpace, WideBar, WideBar],
        'H' => seq![WideBar, ThinBar, ThinBar, WideSpace, WideBar, ThinBar],
        'I' => seq![ThinBar, WideBar, ThinBar, WideSpace, WideBar, ThinBar],
        'J' => seq![ThinBar, ThinBar, WideBar, WideSpace, WideBar, ThinBar],
        'K' => seq![WideBar, ThinBar, ThinBar, ThinBar, WideSpace, WideBar],
        'L' => seq![ThinBar, WideBar, ThinBar, ThinBar, WideSpace, WideBar],
        'M' => seq![WideBar, WideBar, ThinBar, ThinBar, WideSpace, ThinBar],
        'N' => seq![ThinBar, ThinBar, WideBar, ThinBar, WideSpace, WideBar],
        'O' => seq![WideBar, ThinBar, WideBar, ThinBar, WideSpace, ThinBar],
        'P' => seq![ThinBar, WideBar, WideBar, ThinBar, WideSpace, ThinBar],
        'Q' => seq![ThinBar, ThinBar, ThinBar, WideBar, WideSpace, WideBar],
        'R' => seq![WideBar, ThinBar, ThinBar, WideBar, WideSpace, ThinBar],
        'S' => seq![ThinBar, WideBar, ThinBar, WideBar, WideSpace, ThinBar],
        'T' => seq![ThinBar, ThinBar, WideBar, WideBar, WideSpace, ThinBar],
        'U' => seq![WideBar, WideSpace, ThinBar, ThinBar, ThinBar, WideBar],
        'V' => seq![ThinBar, WideSpace, WideBar, ThinBar, ThinBar, WideBar],
        'W' => seq![WideBar, WideSpace, WideBar, ThinBar, ThinBar, ThinBar],
        'X' => seq![ThinBar, WideSpace, ThinBar, WideBar, ThinBar, WideBar],
        'Y' => seq![WideBar, WideSpace, ThinBar, WideBar, ThinBar, ThinBar],
        'Z' => seq![ThinBar, WideSpace, WideBar, WideBar, ThinBar, ThinBar],
        '-' => seq![ThinBar, WideSpace, ThinBar, ThinBar, WideBar, WideBar],
        '.' => seq![WideBar, WideSpace, ThinBar, ThinBar, WideBar, ThinBar],
        ' ' => seq![ThinBar, WideSpace, WideBar, ThinBar, WideBar, ThinBar],
        '*' => seq![ThinBar, WideSpace, ThinBar, WideBar, WideBar, ThinBar],
        '$' => seq![ThinBar, WideSpace, ThinBar, WideSpace, ThinBar, WideSpace, ThinBar, ThinBar],
        '/' => seq![ThinBar, WideSpace, ThinBar, WideSpace, ThinBar, ThinBar, WideSpace, ThinBar],
        '+' => seq![ThinBar, WideSpace, ThinBar, ThinBar, WideSpace, ThinBar, WideSpace, ThinBar],
        '%' => seq![ThinBar, ThinBar, WideSpace, ThinBar, WideSpace, ThinBar, WideSpace, ThinBar],
        _ => Seq::empty(),
    }
}

/// Looks a character up in the table. Letters are expected in upper case; a
/// character that the table does not hold gives an empty vector, not an error.
pub fn lookup(character: &char) -> (unpadded: Vec<Bar>)
    ensures
        unpadded@ == unpadded_sequence(*character),
        unpadded@.len() == 0 <==> !is_supported(*character),
{
    match *character {
        '1' => vec![WideBar, ThinBar, WideSpace, ThinBar, ThinBar, WideBar],
        '2' => vec![ThinBar, WideBar, WideSpace, ThinBar, ThinBar, WideBar],
        '3' => vec![WideBar, WideBar, WideSpace, ThinBar, ThinBar, ThinBar],
        '4' => vec![ThinBar, ThinBar, WideSpace, WideBar, ThinBar, WideBar],
        '5' => vec![WideBar, ThinBar, WideSpace, WideBar, ThinBar, ThinBar],
        '6' => vec![ThinBar, WideBar, WideSpace, WideBar, ThinBar, ThinBar],
        '7' => vec![ThinBar, ThinBar, WideSpace, ThinBar, WideBar, WideBar],
        '8' => vec![WideBar, ThinBar, WideSpace, ThinBar, WideBar, ThinBar],
        '9' => vec![ThinBar, WideBar, WideSpace, ThinBar, WideBar, ThinBar],
        '0' => vec![ThinBar, ThinBar, WideSpace, WideBar, WideBar, ThinBar],
        'A' => vec![WideBar, ThinBar, ThinBar, WideSpace, ThinBar, WideBar],
        'B' => vec![ThinBar, WideBar, ThinBar, WideSpace, ThinBar, WideBar],
        'C' => vec![WideBar, WideBar, ThinBar, WideSpace, ThinBar, ThinBar],
        'D' => vec![ThinBar, ThinBar, WideBar, WideSpace, ThinBar, WideBar],
        'E' => vec![WideBar, ThinBar, WideBar, WideSpace, ThinBar, ThinBar],
        'F' => vec![ThinBar, WideBar, WideBar, WideSpace, ThinBar, ThinBar],
        'G' => vec![ThinBar, ThinBar, ThinBar, WideSpace, WideBar, WideBar],
        'H' => vec![WideBar, ThinBar, ThinBar, WideSpace, WideBar, ThinBar],
        'I' => vec![ThinBar, WideBar, ThinBar, WideSpace, WideBar, ThinBar],
        'J' => vec![ThinBar, ThinBar, WideBar, WideSpace, WideBar, ThinBar],
        'K' => vec![WideBar, ThinBar, ThinBar, ThinBar, WideSpace, WideBar],
        'L' => vec![ThinBar, WideBar, ThinBar, ThinBar, WideSpace, WideBar],
        'M' => vec![WideBar, WideBar, ThinBar, ThinBar, WideSpace, ThinBar],
        'N' => vec![ThinBar, ThinBar, WideBar, ThinBar, WideSpace, WideBar],
        'O' => vec![WideBar, ThinBar, WideBar, ThinBar, WideSpace, ThinBar],
        'P' => vec![ThinBar, WideBar, WideBar, ThinBar, WideSpace, ThinBar],
        'Q' => vec![ThinBar, ThinBar, ThinBar, WideBar, WideSpace, WideBar],
        'R' => vec![WideBar, ThinBar, ThinBar, WideBar, WideSpace, ThinBar],
        'S' => vec![ThinBar, WideBar, ThinBar, WideBar, WideSpace, ThinBar],
        'T' => vec![ThinBar, ThinBar, WideBar, WideBar, WideSpace, ThinBar],
        'U' => vec![WideBar, WideSpace, ThinBar, ThinBar, ThinBar, WideBar],
        'V' => vec![ThinBar, WideSpace, WideBar, ThinBar, ThinBar, WideBar],
        'W' => vec![WideBar, WideSpace, WideBar, ThinBar, ThinBar, ThinBar],
        'X' => vec![ThinBar, WideSpace, ThinBar, WideBar, ThinBar, WideBar],
        'Y' => vec![WideBar, WideSpace, ThinBar, WideBar, ThinBar, ThinBar],
        'Z' => vec![ThinBar, WideSpace, WideBar, WideBar, ThinBar, ThinBar],
        '-' => vec![ThinBar, WideSpace, ThinBar, ThinBar, WideBar, WideBar],
        '.' => vec![WideBar, WideSpace, ThinBar, ThinBar, WideBar, ThinBar],
        ' ' => vec![ThinBar, WideSpace, WideBar, ThinBar, WideBar, ThinBar],
        '*' => vec![ThinBar, WideSpace, ThinBar, WideBar, WideBar, ThinBar],
        '$' => vec![ThinBar, WideSpace, ThinBar, WideSpace, ThinBar, WideSpace, ThinBar, ThinBar],
        '/' => vec![ThinBar, WideSpace, ThinBar, WideSpace, ThinBar, ThinBar, WideSpace, ThinBar],
        '+' => vec![ThinBar, WideSpace, ThinBar, ThinBar, WideSpace, ThinBar, WideSpace, ThinBar],
        '%' => vec![ThinBar, ThinBar, WideSpace, ThinBar, WideSpace, ThinBar, WideSpace, ThinBar],
        _ => Vec::new(),
    }
}

/// The table holds exactly the supported characters.
pub proof fn lemma_supported_iff_in_table(character: char)
    ensures
        is_supported(character) <==> unpadded_sequence(character).len() > 0,
{
}

/// Every entry of the table is six symbols long, or eight for `$ / + %`. It
/// holds no thin space, begins and ends with a bar, and has no two wide spaces
/// in a row.
pub proof fn lemma_table_entries_are_bar_framed(character: char)
    requires
        is_supported(character),
    ensures
        is_bar_framed(unpadded_sequence(character)),
        unpadded_sequence(character).len() == if character == '$' || character == '/'
            || character == '+' || character == '%' {
            8nat
        } else {
            6nat
        },
{
}

/// Three of nine: every entry of the table has five bars, and three wide
/// symbols among its bars and the spaces between them.
pub proof fn lemma_table_entries_are_three_of_nine(character: char)
    requires
        is_supported(character),
    ensures
        bars_among(unpadded_sequence(character), unpadded_sequence(character).len()) == 5,
        wide_among(unpadded_sequence(character), unpadded_sequence(character).len()) == 3,
{
    lemma_table_entries_are_bar_framed(character);
    lemma_table_entries_sum_to_three_of_nine(character);
    lemma_counts_written_out(unpadded_sequence(character));
}

/// One for a bar, nothing for a space.
spec fn bar(symbol: Bar) -> nat {
    if symbol.audible() {
        1
    } else {
        0
    }
}

/// One for a wide symbol, nothing for a thin one.
spec fn wide(symbol: Bar) -> nat {
    if symbol.wide() {
        1
    } else {
        0
    }
}

/// The bars among the first six or eight symbols, counted one by one.
spec fn bars_written_out(s: Seq<Bar>) -> nat {
    let six = bar(s[0]) + bar(s[1]) + bar(s[2]) + bar(s[3]) + bar(s[4]) + bar(s[5]);
    if s.len() == 6 {
        six
    } else {
        six + bar(s[6]) + bar(s[7])
    }
}

/// The wide symbols among the first six or eight symbols, counted one by one.
spec fn wide_written_out(s: Seq<Bar>) -> nat {
    let six = wide(s[0]) + wide(s[1]) + wide(s[2]) + wide(s[3]) + wide(s[4]) + wide(s[5]);
    if s.len() == 6 {
        six
    } else {
        six + wide(s[6]) + wide(s[7])
    }
}

/// Counting one by one is counting.
proof fn lemma_counts_written_out(s: Seq<Bar>)
    requires
        s.len() == 6 || s.len() == 8,
    ensures
        bars_among(s, s.len()) == bars_written_out(s),
        wide_among(s, s.len()) == wide_written_out(s),
{
    reveal_with_fuel(bars_among, 9);
    reveal_with_fuel(wide_among, 9);
}

/// The table, counted entry by entry, one group of characters after another.
#[verifier::rlimit(40)]
proof fn lemma_table_entries_sum_to_three_of_nine(character: char)
    requires
        is_supported(character),
    ensures
        bars_written_out(unpadded_sequence(character)) == 5,
        wide_written_out(unpadded_sequence(character)) == 3,
{
    if '0' <= character <= '9' {
    } else if 'A' <= character <= 'J' {
    } else if 'K' <= character <= 'T' {
    } else if 'U' <= character <= 'Z' {
    } else {
    }
}

} // verus!
