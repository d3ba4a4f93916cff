//! Putting back the thin spaces that the symbol table leaves out.
//!
//! In a printed Code 39 barcode bars and spaces alternate. The table stores
//! only the bars and the wide spaces, so between two neighbouring bars a thin
//! space has to be inserted, and one more after the last symbol to keep the
//! character apart from the next one.

use crate::error::EncodeError;
use crate::symbol::{bars_among, lemma_counts_of_concat, wide_among, Bar};
use vstd::prelude::*;

verus! {

/// What the pair of neighbours `(current, next)` adds to the padded sequence.
///
/// A bar before a bar is followed by a thin space. A bar before a wide space,
/// and a wide space before anything, stand alone. A thin space is no part of an
/// unpadded sequence; where one occurs all the same, a pair that it begins, or
/// in which it follows a bar, adds nothing.
pub open spec fn pair_output(current: Bar, next: Bar) -> Seq<Bar> {
    if current == Bar::WideSpace {
        seq![current]
    } else if current.audible() && next.audible() {
        seq![current, Bar::ThinSpace]
    } else if current.audible() && next == Bar::WideSpace {
        seq![current]
    } else {
        Seq::empty()
    }
}

/// What the first `pairs` pairs of neighbours of `symbols` add, in order.
pub open spec fn separated(symbols: Seq<Bar>, pairs: nat) -> Seq<Bar>
    recommends
        pairs < symbols.len(),
    decreases pairs,
{
    if pairs == 0 {
        Seq::empty()
    } else {
        separated(symbols, (pairs - 1) as nat) + pair_output(
            symbols[pairs - 1],
            symbols[pairs as int],
        )
    }
}

/// The padded sequence: what all pairs of neighbours add, then the last symbol,
/// which no pair begins, then the thin space that ends the character.
pub open spec fn padded(symbols: Seq<Bar>) -> Seq<Bar>
    recommends
        symbols.len() > 0,
{
    separated(symbols, (symbols.len() - 1) as nat).push(symbols.last()).push(Bar::ThinSpace)
}

/// No thin space occurs in `symbols`.
pub open spec fn lacks_thin_space(symbols: Seq<Bar>) -> bool {
    forall|i: int| 0 <= i < symbols.len() ==> symbols[i] != Bar::ThinSpace
}

/// The shape of a table entry: no thin space, a bar at either end, and never
/// two wide spaces in a row.
pub open spec fn is_bar_framed(symbols: Seq<Bar>) -> bool {
    &&& symbols.len() > 0
    &&& lacks_thin_space(symbols)
    &&& symbols.first().audible()
    &&& symbols.last().audible()
    &&& forall|i: int, j: int|
        #![trigger symbols[i], symbols[j]]
        0 <= i && j == i + 1 && j < symbols.len() ==> !(symbols[i] == Bar::WideSpace && symbols[j]
            == Bar::WideSpace)
}

/// No two bars are neighbours, and no two thin spaces are.
pub open spec fn well_separated(symbols: Seq<Bar>) -> bool {
    forall|i: int, j: int|
        #![trigger symbols[i], symbols[j]]
        0 <= i && j == i + 1 && j < symbols.len() ==> {
            &&& !(symbols[i].audible() && symbols[j].audible())
            &&& !(symbols[i] == Bar::ThinSpace && symbols[j] == Bar::ThinSpace)
        }
}

/// Bars and spaces take turns, beginning with a bar.
pub open spec fn alternates(symbols: Seq<Bar>) -> bool {
    forall|i: int| 0 <= i < symbols.len() ==> (#[trigger] symbols[i]).audible() == (i % 2 == 0)
}

/// Pads an unpadded sequence with thin spaces. An empty sequence cannot be
/// padded and is refused.
pub fn add_thin_space_padding(encoding: Vec<Bar>) -> (result: Result<Vec<Bar>, EncodeError>)
    ensures
        match result {
            Ok(symbols) => {
                &&& encoding@.len() > 0
                &&& symbols@ == padded(encoding@)
                &&& symbols@.len() > 0
                &&& symbols@.last() == Bar::ThinSpace
            },
            Err(e) => encoding@.len() == 0 && e == EncodeError::EmptySequence,
        },
{
    let n = encoding.len();
    if n == 0 {
        return Err(EncodeError::EmptySequence);
    }
    let mut symbols: Vec<Bar> = Vec::new();
    let mut i: usize = 0;
    while i < n - 1
        invariant
            n == encoding@.len(),
            n > 0,
            i <= n - 1,
            symbols@ == separated(encoding@, i as nat),
        decreases n - i,
    {
        let current = encoding[i];
        let next = encoding[i + 1];
        match current {
            Bar::WideSpace => {
                symbols.push(current);
            },
            Bar::WideBar | Bar::ThinBar => {
                match next {
                    Bar::WideBar | Bar::ThinBar => {
                        symbols.push(current);
                        symbols.push(Bar::ThinSpace);
                    },
                    Bar::WideSpace => {
                        symbols.push(current);
                    },
                    Bar::ThinSpace => {},
                }
            },
            Bar::ThinSpace => {},
        }
        i += 1;
    }
    symbols.push(encoding[n - 1]);
    symbols.push(Bar::ThinSpace);
    Ok(symbols)
}

/// A padded sequence is never empty and ends with a thin space.
pub proof fn lemma_padded_ends_with_thin_space(symbols: Seq<Bar>)
    requires
        symbols.len() > 0,
    ensures
        padded(symbols).len() > 0,
        padded(symbols).last() == Bar::ThinSpace,
{
}

/// Adjacency law: in the padded form of a sequence without thin spaces no two
/// bars are neighbours, and no two thin spaces are.
pub proof fn lemma_padded_is_well_separated(symbols: Seq<Bar>)
    requires
        symbols.len() > 0,
        lacks_thin_space(symbols),
    ensures
        well_separated(padded(symbols)),
{
    let pairs = (symbols.len() - 1) as nat;
    let body = separated(symbols, pairs);
    lemma_separated_is_well_separated(symbols, pairs);
    let result = padded(symbols);
    assert forall|i: int, j: int|
        #![trigger result[i], result[j]]
        0 <= i && j == i + 1 && j < result.len() implies {
        &&& !(result[i].audible() && result[j].audible())
        &&& !(result[i] == Bar::ThinSpace && result[j] == Bar::ThinSpace)
    } by {
        if j < body.len() {
            assert(result[i] == body[i] && result[j] == body[j]);
        } else if j == body.len() {
            assert(result[j] == symbols.last());
            if body.len() > 0 {
                assert(result[i] == body.last());
            }
        } else {
            assert(result[i] == symbols.last());
            assert(result[j] == Bar::ThinSpace);
        }
    }
}

/// Bars and spaces take turns in the padded form of a sequence that has the
/// shape of a table entry.
pub proof fn lemma_padded_alternates(symbols: Seq<Bar>)
    requires
        is_bar_framed(symbols),
    ensures
        alternates(padded(symbols)),
{
    let pairs = (symbols.len() - 1) as nat;
    lemma_separated_alternates(symbols, pairs);
}

/// Padding adds thin spaces and nothing else: the padded form of a sequence
/// without thin spaces has as many bars as the sequence, and as many wide
/// symbols.
pub proof fn lemma_padded_keeps_the_counts(symbols: Seq<Bar>)
    requires
        symbols.len() > 0,
        lacks_thin_space(symbols),
    ensures
        bars_among(padded(symbols), padded(symbols).len()) == bars_among(symbols, symbols.len()),
        wide_among(padded(symbols), padded(symbols).len()) == wide_among(symbols, symbols.len()),
{
    let pairs = (symbols.len() - 1) as nat;
    let body = separated(symbols, pairs);
    let tail = seq![symbols.last(), Bar::ThinSpace];
    lemma_separated_keeps_the_counts(symbols, pairs);
    assert(padded(symbols) == body + tail);
    lemma_counts_of_concat(body, tail, 2);
    reveal_with_fuel(bars_among, 3);
    reveal_with_fuel(wide_among, 3);
}

/// The padded form of a sequence that has the shape of a table entry holds two
/// symbols for each bar of the sequence: the bar and the space after it.
pub proof fn lemma_padded_length(symbols: Seq<Bar>)
    requires
        is_bar_framed(symbols),
    ensures
        padded(symbols).len() == 2 * bars_among(symbols, symbols.len()),
{
    let result = padded(symbols);
    lemma_padded_alternates(symbols);
    lemma_padded_keeps_the_counts(symbols);
    lemma_bars_of_alternating(result, result.len());
    assert(!result[result.len() - 1].audible());
}

/// The adjacency law for the part that the pairs add, together with what its
/// last symbol says of the symbol that comes next.
proof fn lemma_separated_is_well_separated(symbols: Seq<Bar>, pairs: nat)
    requires
        pairs < symbols.len(),
        lacks_thin_space(symbols),
    ensures
        well_separated(separated(symbols, pairs)),
        pairs > 0 ==> separated(symbols, pairs).len() > 0,
        pairs > 0 && separated(symbols, pairs).last().audible() ==> symbols[pairs as int]
            == Bar::WideSpace,
        pairs > 0 && separated(symbols, pairs).last() == Bar::ThinSpace
            ==> symbols[pairs as int].audible(),
    decreases pairs,
{
    if pairs > 0 {
        let before = separated(symbols, (pairs - 1) as nat);
        let added = pair_output(symbols[pairs - 1], symbols[pairs as int]);
        let both = separated(symbols, pairs);
        lemma_separated_is_well_separated(symbols, (pairs - 1) as nat);
        assert(both == before + added);
        assert(added.len() > 0 && added[0] == symbols[pairs - 1]);
        assert forall|i: int, j: int|
            #![trigger both[i], both[j]]
            0 <= i && j == i + 1 && j < both.len() implies {
            &&& !(both[i].audible() && both[j].audible())
            &&& !(both[i] == Bar::ThinSpace && both[j] == Bar::ThinSpace)
        } by {
            if j < before.len() {
                assert(both[i] == before[i] && both[j] == before[j]);
            } else if j == before.len() {
                assert(both[i] == before.last());
                assert(both[j] == added[0]);
            } else {
                assert(both[i] == added[i - before.len()]);
                assert(both[j] == added[j - before.len()]);
            }
        }
        assert(both.last() == added.last());
    }
}

/// The turn-taking of bars and spaces for the part that the pairs add: it has
/// even length exactly when the symbol that comes next is a bar.
proof fn lemma_separated_alternates(symbols: Seq<Bar>, pairs: nat)
    requires
        pairs < symbols.len(),
        is_bar_framed(symbols),
    ensures
        alternates(separated(symbols, pairs)),
        symbols[pairs as int].audible() == (separated(symbols, pairs).len() % 2 == 0),
    decreases pairs,
{
    if pairs > 0 {
        let before = separated(symbols, (pairs - 1) as nat);
        let added = pair_output(symbols[pairs - 1], symbols[pairs as int]);
        let both = separated(symbols, pairs);
        lemma_separated_alternates(symbols, (pairs - 1) as nat);
        assert(both == before + added);
        assert(!(symbols[pairs - 1] == Bar::WideSpace && symbols[pairs as int] == Bar::WideSpace));
        assert forall|i: int| 0 <= i < both.len() implies (#[trigger] both[i]).audible() == (i % 2
            == 0) by {
            if i < before.len() {
                assert(both[i] == before[i]);
            } else {
                assert(both[i] == added[i - before.len()]);
            }
        }
    }
}

/// What the pairs add has the bars and the wide symbols that the pairs begin
/// with.
proof fn lemma_separated_keeps_the_counts(symbols: Seq<Bar>, pairs: nat)
    requires
        pairs < symbols.len(),
        lacks_thin_space(symbols),
    ensures
        bars_among(separated(symbols, pairs), separated(symbols, pairs).len()) == bars_among(
            symbols,
            pairs,
        ),
        wide_among(separated(symbols, pairs), separated(symbols, pairs).len()) == wide_among(
            symbols,
            pairs,
        ),
    decreases pairs,
{
    if pairs > 0 {
        let before = separated(symbols, (pairs - 1) as nat);
        let added = pair_output(symbols[pairs - 1], symbols[pairs as int]);
        lemma_separated_keeps_the_counts(symbols, (pairs - 1) as nat);
        lemma_counts_of_concat(before, added, added.len());
        reveal_with_fuel(bars_among, 3);
        reveal_with_fuel(wide_among, 3);
    }
}

/// Where bars and spaces take turns, every other symbol is a bar.
proof fn lemma_bars_of_alternating(symbols: Seq<Bar>, n: nat)
    requires
        n <= symbols.len(),
        alternates(symbols),
    ensures
        bars_among(symbols, n) == (n + 1) / 2,
    decreases n,
{
    if n > 0 {
        lemma_bars_of_alternating(symbols, (n - 1) as nat);
        assert(symbols[n - 1].audible() == ((n - 1) % 2 == 0));
    }
}

} // verus!
