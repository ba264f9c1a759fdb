//! The rules by which a board is laid out: where the start and the finish
//! go, how many holes are dug, and which cell each pick turns into a hole.

use vstd::prelude::*;
use crate::tiles::{
    count_of, lemma_count_absent, lemma_count_prefix_monotone, lemma_count_prefix_step,
    lemma_count_single, lemma_count_update, lemma_counts_partition, Tiles,
};

verus! {

/// The number of holes on a grid with the given number of cells.
pub open spec fn hole_count(cells: nat) -> nat {
    cells / 10
}

/// The grid before any hole is dug: the start in the first cell, the
/// finish in the last, nothing in between. A grid has two cells at least.
pub open spec fn blank(cells: nat) -> Seq<Tiles> {
    Seq::new(
        cells,
        |i: int|
            if i == 0 {
                Tiles::Start
            } else if i == cells - 1 {
                Tiles::Finish
            } else {
                Tiles::Empty
            },
    )
}

/// `at` is the index of the empty cell that has exactly `k` empty cells
/// before it.
pub open spec fn is_nth_empty(s: Seq<Tiles>, k: nat, at: int) -> bool {
    &&& 0 <= at < s.len()
    &&& s[at] == Tiles::Empty
    &&& count_of(s.take(at), Tiles::Empty) == k
}

/// The index of the empty cell that has exactly `k` empty cells before it.
pub open spec fn nth_empty(s: Seq<Tiles>, k: nat) -> int {
    choose|at: int| is_nth_empty(s, k, at)
}

/// The grid after one more hole is dug. The pick, reduced modulo the number
/// of empty cells, says which of them, counted in index order, turns into
/// the hole. A grid without empty cells stays as it is.
pub open spec fn with_hole(s: Seq<Tiles>, pick: usize) -> Seq<Tiles> {
    let empties = count_of(s, Tiles::Empty);
    if empties == 0 {
        s
    } else {
        s.update(nth_empty(s, (pick as nat) % empties), Tiles::Hole)
    }
}

/// The grid that results from a blank one by digging one hole per pick, in
/// the order of the picks.
pub open spec fn layout(cells: nat, picks: Seq<usize>) -> Seq<Tiles>
    decreases picks.len(),
{
    if picks.len() == 0 {
        blank(cells)
    } else {
        with_hole(layout(cells, picks.drop_last()), picks.last())
    }
}

/// The start sits in the first cell, the finish in the last, which is
/// another cell, and every cell in between is empty or a hole.
pub open spec fn framed(s: Seq<Tiles>) -> bool {
    &&& s.len() >= 2
    &&& s[0] == Tiles::Start
    &&& s[s.len() - 1] == Tiles::Finish
    &&& forall|i: int| 0 < i < s.len() - 1 ==> s[i] == Tiles::Empty || s[i] == Tiles::Hole
}

/// What holds of the cells of every board of the given width and height.
pub open spec fn valid_layout(width: nat, height: nat, s: Seq<Tiles>) -> bool {
    &&& width >= 1
    &&& height >= 1
    &&& s.len() == width * height
    &&& framed(s)
    &&& count_of(s, Tiles::Hole) == hole_count(s.len())
}

/// The number of cells that a framed grid leaves for holes and empty
/// cells together: all but the start and the finish.
pub open spec fn inner_cells(cells: nat) -> nat {
    (cells - 2) as nat
}

/// There is always room for the holes: a grid never takes more holes than
/// it has cells besides the start and the finish, and where it takes any,
/// some cell stays empty.
pub proof fn law_holes_fit(cells: nat)
    requires
        cells >= 2,
    ensures
        hole_count(cells) <= inner_cells(cells),
        hole_count(cells) > 0 ==> hole_count(cells) < inner_cells(cells),
{
}

/// In a framed grid the start occurs once, the finish once, the player
/// marker never, and the holes and the empty cells share what is left.
pub proof fn lemma_framed_counts(s: Seq<Tiles>)
    requires
        framed(s),
    ensures
        count_of(s, Tiles::Finish) == 1,
        count_of(s, Tiles::Start) == 1,
        count_of(s, Tiles::Player) == 0,
        count_of(s, Tiles::Empty) + count_of(s, Tiles::Hole) == inner_cells(s.len()),
{
    lemma_count_single(s, Tiles::Finish, s.len() - 1);
    lemma_count_single(s, Tiles::Start, 0);
    lemma_count_absent(s, Tiles::Player);
    lemma_counts_partition(s);
}

/// No two cells are the `k`-th empty one.
pub proof fn lemma_nth_empty_unique(s: Seq<Tiles>, k: nat, a: int, b: int)
    requires
        is_nth_empty(s, k, a),
        is_nth_empty(s, k, b),
    ensures
        a == b,
{
    if a < b {
        lemma_count_prefix_step(s, Tiles::Empty, a);
        lemma_count_prefix_monotone(s, Tiles::Empty, a + 1, b);
    } else if b < a {
        lemma_count_prefix_step(s, Tiles::Empty, b);
        lemma_count_prefix_monotone(s, Tiles::Empty, b + 1, a);
    }
}

/// If more than `k` cells are empty, one of them is the `k`-th.
pub proof fn lemma_nth_empty_exists(s: Seq<Tiles>, k: nat)
    requires
        k < count_of(s, Tiles::Empty),
    ensures
        is_nth_empty(s, k, nth_empty(s, k)),
    decreases s.len(),
{
    let front = s.drop_last();
    if k < count_of(front, Tiles::Empty) {
        lemma_nth_empty_exists(front, k);
        let at = nth_empty(front, k);
        assert(s.take(at) =~= front.take(at));
        assert(is_nth_empty(s, k, at));
    } else {
        assert(s.take(s.len() - 1) =~= front);
        assert(is_nth_empty(s, k, s.len() - 1));
    }
}

/// Digging a hole into a framed grid that has an empty cell leaves the grid
/// framed, turns one empty cell into a hole and changes nothing else.
pub proof fn lemma_with_hole(s: Seq<Tiles>, pick: usize)
    requires
        framed(s),
        count_of(s, Tiles::Empty) > 0,
    ensures
        framed(with_hole(s, pick)),
        with_hole(s, pick).len() == s.len(),
        count_of(with_hole(s, pick), Tiles::Hole) == count_of(s, Tiles::Hole) + 1,
        count_of(with_hole(s, pick), Tiles::Empty) + 1 == count_of(s, Tiles::Empty),
{
    let empties = count_of(s, Tiles::Empty);
    let k = (pick as nat) % empties;
    lemma_nth_empty_exists(s, k);
    let at = nth_empty(s, k);
    lemma_count_update(s, at, Tiles::Hole, Tiles::Hole);
    lemma_count_update(s, at, Tiles::Hole, Tiles::Empty);
}

/// Digging no more holes than a grid of this size takes gives a framed grid
/// with one hole per pick.
pub proof fn lemma_layout_holes(cells: nat, picks: Seq<usize>)
    requires
        cells >= 2,
        picks.len() <= hole_count(cells),
    ensures
        framed(layout(cells, picks)),
        layout(cells, picks).len() == cells,
        count_of(layout(cells, picks), Tiles::Hole) == picks.len(),
    decreases picks.len(),
{
    if picks.len() == 0 {
        lemma_count_absent(blank(cells), Tiles::Hole);
    } else {
        let before = layout(cells, picks.drop_last());
        lemma_layout_holes(cells, picks.drop_last());
        lemma_framed_counts(before);
        lemma_with_hole(before, picks.last());
    }
}

/// Every grid that is laid out from picks is laid out as every board is:
/// whatever the width and the height, as long as there are two cells at
/// least, and whatever is picked, as long as there is one pick per hole.
pub proof fn law_layout_is_valid(width: nat, height: nat, picks: Seq<usize>)
    requires
        width >= 1,
        height >= 1,
        width * height >= 2,
        picks.len() == hole_count(width * height),
    ensures
        valid_layout(width, height, layout(width * height, picks)),
{
    lemma_layout_holes(width * height, picks);
}

/// A board has two cells at least. The start is the first cell and no
/// other, the finish is the last cell and no other, one cell in ten,
/// rounded down, is a hole, every hole lies strictly between the start and
/// the finish, and all the other cells are empty.
pub proof fn law_board_census(width: nat, height: nat, s: Seq<Tiles>)
    requires
        valid_layout(width, height, s),
    ensures
        s.len() == width * height,
        s.len() >= 2,
        s[0] == Tiles::Start,
        count_of(s, Tiles::Start) == 1,
        s[s.len() - 1] == Tiles::Finish,
        count_of(s, Tiles::Finish) == 1,
        count_of(s, Tiles::Hole) == s.len() / 10,
        count_of(s, Tiles::Player) == 0,
        count_of(s, Tiles::Empty) == s.len() - 2 - s.len() / 10,
        forall|i: int| 0 <= i < s.len() && s[i] == Tiles::Hole ==> 0 < i < s.len() - 1,
{
    lemma_framed_counts(s);
}

/// A cell of a grid `width` wide lies inside a grid `height` high.
pub proof fn lemma_cell_index(width: nat, height: nat, x: nat, y: nat)
    requires
        x < width,
        y < height,
    ensures
        0 <= y * width <= y * width + x < width * height,
{
    assert(y * width + width <= width * height) by (nonlinear_arith)
        requires
            y + 1 <= height,
    ;
    assert(0 <= y * width) by (nonlinear_arith);
}

} // verus!
