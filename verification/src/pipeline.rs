//! The pipeline: from a text to one stream of samples.
//!
//! Each character is looked up, padded and synthesized symbol by symbol, and
//! the runs are joined in the order of the text, with nothing between them.

use crate::encoding::{encode, encoded_sequence, lemma_encoded_has_ten_symbols};
use crate::error::EncodeError;
use crate::samples::{generate_samples, sample_run};
use crate::symbol::{lemma_counts_of_prefix, wide_among, Bar};
use crate::table::is_supported;
use vstd::prelude::*;

verus! {

/// Samples per second of the sound that is written out.
pub const SAMPLE_RATE: u32 = 44_100;

/// The sound has one channel.
pub const CHANNELS: u16 = 1;

/// Each sample is a signed integer of this many bits.
pub const BITS_PER_SAMPLE: u16 = 16;

/// The runs of the symbols, joined in order.
pub open spec fn symbols_samples(symbols: Seq<Bar>, sample_rate: nat) -> Seq<i16>
    decreases symbols.len(),
{
    if symbols.len() == 0 {
        Seq::empty()
    } else {
        symbols_samples(symbols.drop_last(), sample_rate) + sample_run(symbols.last(), sample_rate)
    }
}

/// Number of samples that the symbols last together.
pub open spec fn total_duration(symbols: Seq<Bar>, sample_rate: nat) -> nat
    decreases symbols.len(),
{
    if symbols.len() == 0 {
        0
    } else {
        total_duration(symbols.drop_last(), sample_rate) + symbols.last().duration(sample_rate)
    }
}

/// The sound of one supported character.
pub open spec fn character_samples(character: char, sample_rate: nat) -> Seq<i16>
    recommends
        is_supported(character),
{
    symbols_samples(encoded_sequence(character), sample_rate)
}

/// The sound of a text: the sound of each character, joined in order.
pub open spec fn text_samples(text: Seq<char>, sample_rate: nat) -> Seq<i16>
    decreases text.len(),
{
    if text.len() == 0 {
        Seq::empty()
    } else {
        text_samples(text.drop_last(), sample_rate) + character_samples(text.last(), sample_rate)
    }
}

/// Every character of the text is in the symbol table.
pub open spec fn all_supported(text: Seq<char>) -> bool {
    forall|i: int| 0 <= i < text.len() ==> is_supported(#[trigger] text[i])
}

/// What rendering `text` gives: its sound where every character is supported,
/// and `EmptySequence` where one is not.
pub open spec fn renders(
    text: Seq<char>,
    sample_rate: nat,
    result: Result<Vec<i16>, EncodeError>,
) -> bool {
    match result {
        Ok(samples) => all_supported(text) && samples@ == text_samples(text, sample_rate),
        Err(e) => !all_supported(text) && e == EncodeError::EmptySequence,
    }
}

/// Synthesizes a sequence of symbols into one stream of samples.
pub fn render_symbols(symbols: &[Bar], sample_rate: usize) -> (samples: Vec<i16>)
    ensures
        samples@ == symbols_samples(symbols@, sample_rate as nat),
{
    let mut samples: Vec<i16> = Vec::new();
    let mut i: usize = 0;
    while i < symbols.len()
        invariant
            i <= symbols@.len(),
            samples@ == symbols_samples(symbols@.take(i as int), sample_rate as nat),
        decreases symbols@.len() - i,
    {
        let mut run = generate_samples(&symbols[i], sample_rate);
        proof {
            let done = symbols@.take(i + 1);
            assert(done.drop_last() == symbols@.take(i as int));
            assert(done.last() == symbols@[i as int]);
        }
        samples.append(&mut run);
        i += 1;
    }
    proof {
        assert(symbols@.take(symbols@.len() as int) == symbols@);
    }
    samples
}

/// Renders a text, whose letters are in upper case already, as sound. A
/// character that the symbol table does not hold fails the whole text.
pub fn render_text(text: &str, sample_rate: usize) -> (result: Result<Vec<i16>, EncodeError>)
    ensures
        renders(text@, sample_rate as nat, result),
        all_supported(text@) <==> result is Ok,
        result matches Ok(samples) ==> samples@.len() == text@.len() * (3 * sample_rate + 7 * (
            sample_rate / 3)),
{
    let mut samples: Vec<i16> = Vec::new();
    for character in it: text.chars()
        invariant
            it.seq() == text@,
            all_supported(text@.take(it.index() as int)),
            samples@ == text_samples(text@.take(it.index() as int), sample_rate as nat),
    {
        let ghost done = text@.take(it.index() + 1);
        proof {
            assert(done.drop_last() == text@.take(it.index() as int));
            assert(done.last() == character);
        }
        match encode(&character) {
            Ok(symbols) => {
                let mut run = render_symbols(symbols.as_slice(), sample_rate);
                samples.append(&mut run);
            },
            Err(e) => {
                return Err(e);
            },
        }
    }
    proof {
        assert(text@.take(text@.len() as int) == text@);
        lemma_text_sample_count(text@, sample_rate as nat);
    }
    Ok(samples)
}

/// The upper-case form of a text as `str::to_uppercase` of std gives it.
pub uninterp spec fn uppercase(text: Seq<char>) -> Seq<char>;

/// Calls `str::to_uppercase` of std, which puts a text into the upper case of
/// Unicode, independent of any locale; one character may become several.
/// Nothing is proved of it: the contract only names what it returns, a function
/// of the text alone.
#[verifier::external_body]
fn to_uppercase(text: &str) -> (upper: String)
    ensures
        upper@ == uppercase(text@),
{
    text.to_uppercase()
}

/// Renders a text as sound, after putting it into upper case.
pub fn text_to_samples(text: &str, sample_rate: usize) -> (result: Result<Vec<i16>, EncodeError>)
    ensures
        renders(uppercase(text@), sample_rate as nat, result),
        all_supported(uppercase(text@)) <==> result is Ok,
        result matches Ok(samples) ==> samples@.len() == uppercase(text@).len() * (3 * sample_rate
            + 7 * (sample_rate / 3)),
{
    let upper = to_uppercase(text);
    render_text(upper.as_str(), sample_rate)
}

/// Duration law for a whole sequence: its sound has as many samples as the
/// symbols last together.
pub proof fn lemma_symbols_samples_length(symbols: Seq<Bar>, sample_rate: nat)
    ensures
        symbols_samples(symbols, sample_rate).len() == total_duration(symbols, sample_rate),
    decreases symbols.len(),
{
    if symbols.len() > 0 {
        lemma_symbols_samples_length(symbols.drop_last(), sample_rate);
    }
}

/// The sound of two texts, one after the other, is the sound of the first
/// followed by the sound of the second: nothing is added or lost where they
/// meet.
pub proof fn lemma_text_samples_concat(first: Seq<char>, second: Seq<char>, sample_rate: nat)
    ensures
        text_samples(first + second, sample_rate) == text_samples(first, sample_rate)
            + text_samples(second, sample_rate),
    decreases second.len(),
{
    if second.len() == 0 {
        assert(first + second == first);
    } else {
        lemma_text_samples_concat(first, second.drop_last(), sample_rate);
        assert((first + second).drop_last() == first + second.drop_last());
        assert((first + second).last() == second.last());
    }
}

/// The sound of a text of one character is the sound of that character.
pub proof fn lemma_text_samples_single(character: char, sample_rate: nat)
    ensures
        text_samples(seq![character], sample_rate) == character_samples(character, sample_rate),
{
    let text = seq![character];
    assert(text.drop_last() == Seq::<char>::empty());
    assert(text_samples(text.drop_last(), sample_rate) == Seq::<i16>::empty());
}

/// Rendering is a function of the text and the sample rate: two results of
/// `render_text` for one text and one rate are both errors, and the same error,
/// or hold the same samples, and so as many.
pub proof fn lemma_render_is_deterministic(
    text: Seq<char>,
    sample_rate: nat,
    first: Result<Vec<i16>, EncodeError>,
    second: Result<Vec<i16>, EncodeError>,
)
    requires
        renders(text, sample_rate, first),
        renders(text, sample_rate, second),
    ensures
        first is Ok <==> second is Ok,
        first is Ok ==> first->Ok_0@ == second->Ok_0@,
        first is Ok ==> first->Ok_0@.len() == second->Ok_0@.len(),
        first is Err ==> first->Err_0 == second->Err_0,
{
}

/// What a sequence lasts is what its wide symbols last, a second each, and
/// what its thin symbols last, a third of a second each.
pub proof fn lemma_total_duration_by_width(symbols: Seq<Bar>, sample_rate: nat)
    ensures
        total_duration(symbols, sample_rate) == wide_among(symbols, symbols.len()) * sample_rate
            + (symbols.len() - wide_among(symbols, symbols.len())) * (sample_rate / 3),
    decreases symbols.len(),
{
    let third = sample_rate / 3;
    if symbols.len() > 0 {
        let before = symbols.drop_last();
        let wide = wide_among(before, before.len());
        let thin = before.len() - wide;
        lemma_total_duration_by_width(before, sample_rate);
        lemma_counts_of_prefix(symbols, before, before.len());
        assert(total_duration(before, sample_rate) == wide * sample_rate + thin * third);
        if symbols.last().wide() {
            assert(wide_among(symbols, symbols.len()) == wide + 1);
            assert((wide + 1) * sample_rate == wide * sample_rate + sample_rate)
                by (nonlinear_arith);
        } else {
            assert(wide_among(symbols, symbols.len()) == wide);
            assert(symbols.len() - wide == thin + 1);
            assert((thin + 1) * third == thin * third + third) by (nonlinear_arith);
        }
    } else {
        assert(wide_among(symbols, 0) == 0);
        assert(0 * sample_rate + 0 * third == 0);
    }
}

/// Every supported character sounds equally long: three wide symbols and
/// seven thin ones. So the number of samples depends on the sample rate alone.
pub proof fn lemma_character_sample_count(character: char, sample_rate: nat)
    requires
        is_supported(character),
    ensures
        character_samples(character, sample_rate).len() == total_duration(
            encoded_sequence(character),
            sample_rate,
        ),
        character_samples(character, sample_rate).len() == 3 * sample_rate + 7 * (sample_rate
            / 3),
{
    let symbols = encoded_sequence(character);
    lemma_symbols_samples_length(symbols, sample_rate);
    lemma_encoded_has_ten_symbols(character);
    lemma_total_duration_by_width(symbols, sample_rate);
}

/// A text of supported characters has as many samples as its characters last,
/// each of them three wide symbols and seven thin ones.
pub proof fn lemma_text_sample_count(text: Seq<char>, sample_rate: nat)
    requires
        all_supported(text),
    ensures
        text_samples(text, sample_rate).len() == text.len() * (3 * sample_rate + 7 * (sample_rate
            / 3)),
    decreases text.len(),
{
    let each = 3 * sample_rate + 7 * (sample_rate / 3);
    if text.len() > 0 {
        let before = text.drop_last();
        assert(all_supported(before)) by {
            assert forall|i: int| 0 <= i < before.len() implies is_supported(
                #[trigger] before[i],
            ) by {
                assert(before[i] == text[i]);
            }
        }
        assert(is_supported(text[text.len() - 1]));
        lemma_text_sample_count(before, sample_rate);
        lemma_character_sample_count(text.last(), sample_rate);
        assert((before.len() + 1) * each == before.len() * each + each) by (nonlinear_arith);
    } else {
        assert(0 * each == 0);
    }
}

} // verus!
