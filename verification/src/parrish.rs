//! Parrish: the three decks of cloud the sky is stacked from.
//!
//! Each deck is a horizontal sheet of cloud at its own altitude. What the shader makes of them
//! is measured; which deck lies where is a table, and the table has to be in order, because the
//! shader draws the decks in reverse and would otherwise paint the far ones over the near ones.

use vstd::prelude::*;

verus! {

/// The three decks, lowest first: altitude in metres, how many metres one tile of the sheet
/// covers, the coverage threshold in thousandths, and how many coats of distance the deck
/// already sits behind, in thousandths of a coat.
///
/// Lower is nearer. At any angle above the horizon the lower plane is the closer of the two, so
/// the low deck carries the big shapes overhead and the high ones stack up behind it.
pub const DECKS: [[u32; 4]; 3] = [
    [1700, 12_000, 800, 0],
    [3000, 15_000, 825, 300],
    [4600, 17_000, 850, 620],
];

/// Which column of a deck holds what.
pub const ALTITUDE: usize = 0;
/// How many metres one tile covers.
pub const TILE: usize = 1;
/// The coverage threshold: the higher it is, the thinner the deck.
pub const COVERAGE: usize = 2;
/// Coats of distance already in front of the deck.
pub const DISTANCE: usize = 3;

/// Whether the deck `far` stands behind the deck `near`: higher, further off, and no thicker.
pub open spec fn stands_behind(near: Seq<u32>, far: Seq<u32>) -> bool {
    &&& far[ALTITUDE as int] > near[ALTITUDE as int]
    &&& far[DISTANCE as int] > near[DISTANCE as int]
    &&& far[COVERAGE as int] >= near[COVERAGE as int]
}

/// The decks stack: each one further up is higher, further off and no thicker than the one
/// under it, which is the order the shader draws them back to front in.
pub proof fn the_decks_stack()
    ensures
        stands_behind(DECKS@[0]@, DECKS@[1]@),
        stands_behind(DECKS@[1]@, DECKS@[2]@),
{
    assert(DECKS@[0]@ =~= seq![1700u32, 12_000, 800, 0]);
    assert(DECKS@[1]@ =~= seq![3000u32, 15_000, 825, 300]);
    assert(DECKS@[2]@ =~= seq![4600u32, 17_000, 850, 620]);
}

} // verus!
