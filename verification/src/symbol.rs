//! The four modules a Code 39 barcode is drawn with.

use vstd::prelude::*;

verus! {

/// One module of a barcode. Bars are audible, spaces are silent; a wide module
/// lasts three times as long as a thin one.
#[derive(Copy, Clone, Debug, PartialEq, Eq, Structural)]
pub enum Bar {
    WideBar,
    ThinBar,
    WideSpace,
    ThinSpace,
}

impl Bar {
    /// The module is a bar, the audible kind.
    pub open spec fn audible(self) -> bool {
        self == Bar::WideBar || self == Bar::ThinBar
    }

    /// The module has the full width.
    pub open spec fn wide(self) -> bool {
        self == Bar::WideBar || self == Bar::WideSpace
    }

    /// Number of samples the module lasts at `sample_rate` samples per second:
    /// one second when wide, a third of a second, rounded down, when thin.
    pub open spec fn duration(self, sample_rate: nat) -> nat {
        if self.wide() {
            sample_rate
        } else {
            sample_rate / 3
        }
    }

    /// Tells bars from spaces.
    pub fn is_bar(&self) -> (b: bool)
        ensures
            b == self.audible(),
    {
        match self {
            Bar::WideBar | Bar::ThinBar => true,
            Bar::WideSpace | Bar::ThinSpace => false,
        }
    }

    /// Tells wide modules from thin ones.
    pub fn is_wide(&self) -> (b: bool)
        ensures
            b == self.wide(),
    {
        match self {
            Bar::WideBar | Bar::WideSpace => true,
            Bar::ThinBar | Bar::ThinSpace => false,
        }
    }
}

/// Number of bars among the first `n` symbols.
pub open spec fn bars_among(symbols: Seq<Bar>, n: nat) -> nat
    recommends
        n <= symbols.len(),
    decreases n,
{
    if n == 0 {
        0
    } else {
        bars_among(symbols, (n - 1) as nat) + if symbols[n - 1].audible() {
            1nat
        } else {
            0nat
        }
    }
}

/// Number of wide symbols, bars or spaces, among the first `n` symbols.
pub open spec fn wide_among(symbols: Seq<Bar>, n: nat) -> nat
    recommends
        n <= symbols.len(),
    decreases n,
{
    if n == 0 {
        0
    } else {
        wide_among(symbols, (n - 1) as nat) + if symbols[n - 1].wide() {
            1nat
        } else {
            0nat
        }
    }
}

/// The counts of a sequence that continues another are those of the two
/// together.
pub proof fn lemma_counts_of_concat(first: Seq<Bar>, second: Seq<Bar>, n: nat)
    requires
        n <= second.len(),
    ensures
        bars_among(first + second, first.len() + n) == bars_among(first, first.len())
            + bars_among(second, n),
        wide_among(first + second, first.len() + n) == wide_among(first, first.len())
            + wide_among(second, n),
    decreases n,
{
    let both = first + second;
    if n == 0 {
        lemma_counts_of_prefix(both, first, first.len());
    } else {
        lemma_counts_of_concat(first, second, (n - 1) as nat);
        assert(both[first.len() + n - 1] == second[n - 1]);
    }
}

/// The counts among the first `n` symbols depend on those symbols alone.
pub proof fn lemma_counts_of_prefix(symbols: Seq<Bar>, other: Seq<Bar>, n: nat)
    requires
        n <= symbols.len(),
        n <= other.len(),
        forall|i: int| 0 <= i < n ==> symbols[i] == other[i],
    ensures
        bars_among(symbols, n) == bars_among(other, n),
        wide_among(symbols, n) == wide_among(other, n),
    decreases n,
{
    if n > 0 {
        lemma_counts_of_prefix(symbols, other, (n - 1) as nat);
    }
}

} // verus!
