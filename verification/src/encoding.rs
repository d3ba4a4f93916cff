//! From a character to its barcode: the table entry, padded.

use crate::error::EncodeError;
use crate::padding::{
    add_thin_space_padding, alternates, lemma_padded_alternates, lemma_padded_is_well_separated,
    lemma_padded_keeps_the_counts, lemma_padded_length, padded, well_separated,
};
use crate::symbol::{bars_among, wide_among, Bar};
use crate::table::{
    is_supported, lemma_table_entries_are_bar_framed, lemma_table_entries_are_three_of_nine,
    lookup, unpadded_sequence,
};
use vstd::prelude::*;

verus! {

/// The barcode of a supported character: its table entry with the thin spaces
/// put back.
pub open spec fn encoded_sequence(character: char) -> Seq<Bar>
    recommends
        is_supported(character),
{
    padded(unpadded_sequence(character))
}

/// What `encode` gives for `character`: the barcode of a supported character,
/// and `EmptySequence` for any other, whose table entry has nothing to pad.
pub open spec fn encodes(character: char, result: Result<Vec<Bar>, EncodeError>) -> bool {
    match result {
        Ok(symbols) => is_supported(character) && symbols@ == encoded_sequence(character),
        Err(e) => !is_supported(character) && e == EncodeError::EmptySequence,
    }
}

/// Encodes a character into bars and spaces. Letters are expected in upper
/// case.
pub fn encode(character: &char) -> (result: Result<Vec<Bar>, EncodeError>)
    ensures
        encodes(*character, result),
        is_supported(*character) <==> result is Ok,
        result matches Ok(symbols) ==> symbols@.len() > 0 && symbols@.last() == Bar::ThinSpace,
{
    let unpadded = lookup(character);
    add_thin_space_padding(unpadded)
}

/// Encoding is a function of the character: two results of `encode` for one
/// character are both errors, and the same error, or hold the same symbols.
pub proof fn lemma_encode_is_deterministic(
    character: char,
    first: Result<Vec<Bar>, EncodeError>,
    second: Result<Vec<Bar>, EncodeError>,
)
    requires
        encodes(character, first),
        encodes(character, second),
    ensures
        first is Ok <==> second is Ok,
        first is Ok ==> first->Ok_0@ == second->Ok_0@,
        first is Err ==> first->Err_0 == second->Err_0,
{
}

/// The barcode of a supported character is not empty and ends with the thin
/// space that keeps it apart from the next character.
pub proof fn lemma_encoded_ends_with_thin_space(character: char)
    requires
        is_supported(character),
    ensures
        encoded_sequence(character).len() > 0,
        encoded_sequence(character).last() == Bar::ThinSpace,
{
}

/// In the barcode of a supported character no two bars are neighbours and no
/// two thin spaces are; more than that, bars and spaces take turns, from the
/// bar at the start to the thin space at the end.
pub proof fn lemma_encoded_is_well_separated(character: char)
    requires
        is_supported(character),
    ensures
        well_separated(encoded_sequence(character)),
        alternates(encoded_sequence(character)),
{
    lemma_table_entries_are_bar_framed(character);
    lemma_padded_is_well_separated(unpadded_sequence(character));
    lemma_padded_alternates(unpadded_sequence(character));
}

/// The barcode of a supported character has ten symbols: five bars and the
/// space after each. Three of the ten are wide.
pub proof fn lemma_encoded_has_ten_symbols(character: char)
    requires
        is_supported(character),
    ensures
        encoded_sequence(character).len() == 10,
        bars_among(encoded_sequence(character), 10) == 5,
        wide_among(encoded_sequence(character), 10) == 3,
{
    let entry = unpadded_sequence(character);
    lemma_table_entries_are_bar_framed(character);
    lemma_table_entries_are_three_of_nine(character);
    lemma_padded_keeps_the_counts(entry);
    lemma_padded_length(entry);
}

} // verus!
