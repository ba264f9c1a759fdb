//! The kinds of cell a board is made of, and how to count them.

use vstd::prelude::*;

verus! {

/// What a single cell of the board holds.
///
/// `Player` is never stored in a board: it only exists so that a rendering
/// can mark where the agent stands.
#[derive(Clone, Copy, Debug, PartialEq, Eq, Structural)]
pub enum Tiles {
    Empty,
    Hole,
    Finish,
    Start,
    Player,
}

/// The character that stands for a cell kind in a rendered board.
pub open spec fn glyph_of(tile: Tiles) -> char {
    match tile {
        Tiles::Empty => '.',
        Tiles::Hole => 'O',
        Tiles::Finish => 'F',
        Tiles::Start => 'S',
        Tiles::Player => 'P',
    }
}

impl Tiles {
    /// The character that stands for this cell kind in a rendered board.
    pub fn glyph(self) -> (c: char)
        ensures
            c == glyph_of(self),
    {
        match self {
            Tiles::Empty => '.',
            Tiles::Hole => 'O',
            Tiles::Finish => 'F',
            Tiles::Start => 'S',
            Tiles::Player => 'P',
        }
    }
}

/// How many cells of `s` are of the given kind.
pub open spec fn count_of(s: Seq<Tiles>, kind: Tiles) -> nat
    decreases s.len(),
{
    if s.len() == 0 {
        0
    } else {
        count_of(s.drop_last(), kind) + if s.last() == kind { 1nat } else { 0nat }
    }
}

/// Extending a prefix by one cell raises the count by one exactly when that
/// cell is of the kind counted.
pub proof fn lemma_count_prefix_step(s: Seq<Tiles>, kind: Tiles, i: int)
    requires
        0 <= i < s.len(),
    ensures
        count_of(s.take(i + 1), kind) == count_of(s.take(i), kind) + if s[i] == kind {
            1nat
        } else {
            0nat
        },
{
    assert(s.take(i + 1).drop_last() =~= s.take(i));
}

/// A longer prefix never holds fewer cells of a kind than a shorter one.
pub proof fn lemma_count_prefix_monotone(s: Seq<Tiles>, kind: Tiles, a: int, b: int)
    requires
        0 <= a <= b <= s.len(),
    ensures
        count_of(s.take(a), kind) <= count_of(s.take(b), kind),
    decreases b - a,
{
    if a < b {
        lemma_count_prefix_monotone(s, kind, a, b - 1);
        lemma_count_prefix_step(s, kind, b - 1);
    }
}

/// No kind occurs more often than there are cells.
pub proof fn lemma_count_bounded(s: Seq<Tiles>, kind: Tiles)
    ensures
        count_of(s, kind) <= s.len(),
    decreases s.len(),
{
    if s.len() > 0 {
        lemma_count_bounded(s.drop_last(), kind);
    }
}

/// A kind that no cell holds is counted zero times.
pub proof fn lemma_count_absent(s: Seq<Tiles>, kind: Tiles)
    requires
        forall|i: int| 0 <= i < s.len() ==> s[i] != kind,
    ensures
        count_of(s, kind) == 0,
    decreases s.len(),
{
    if s.len() > 0 {
        lemma_count_absent(s.drop_last(), kind);
    }
}

/// A kind that exactly one cell holds is counted once.
pub proof fn lemma_count_single(s: Seq<Tiles>, kind: Tiles, at: int)
    requires
        0 <= at < s.len(),
        s[at] == kind,
        forall|i: int| 0 <= i < s.len() && i != at ==> s[i] != kind,
    ensures
        count_of(s, kind) == 1,
    decreases s.len(),
{
    if at == s.len() - 1 {
        lemma_count_absent(s.drop_last(), kind);
    } else {
        lemma_count_single(s.drop_last(), kind, at);
    }
}

/// Overwriting one cell takes one from the count of the kind it held and
/// adds one to the count of the kind it now holds.
pub proof fn lemma_count_update(s: Seq<Tiles>, at: int, tile: Tiles, kind: Tiles)
    requires
        0 <= at < s.len(),
    ensures
        count_of(s.update(at, tile), kind) + (if s[at] == kind { 1nat } else { 0nat })
            == count_of(s, kind) + (if tile == kind { 1nat } else { 0nat }),
    decreases s.len(),
{
    if at == s.len() - 1 {
        assert(s.update(at, tile).drop_last() =~= s.drop_last());
    } else {
        assert(s.update(at, tile).drop_last() =~= s.drop_last().update(at, tile));
        lemma_count_update(s.drop_last(), at, tile, kind);
    }
}

/// Every cell is of exactly one of the five kinds, so the five counts add
/// up to the number of cells.
pub proof fn lemma_counts_partition(s: Seq<Tiles>)
    ensures
        count_of(s, Tiles::Empty) + count_of(s, Tiles::Hole) + count_of(s, Tiles::Finish)
            + count_of(s, Tiles::Start) + count_of(s, Tiles::Player) == s.len(),
    decreases s.len(),
{
    if s.len() > 0 {
        lemma_counts_partition(s.drop_last());
    }
}

} // verus!
