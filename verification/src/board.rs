//! The board: a rectangular grid of cells stored row by row.

use vstd::prelude::*;
use crate::layout::{
    blank, framed, hole_count, is_nth_empty, layout, lemma_cell_index, lemma_framed_counts,
    lemma_nth_empty_unique, nth_empty, valid_layout,
};
use crate::rng::random_usize;
use crate::tiles::{
    count_of, lemma_count_absent, lemma_count_bounded, lemma_count_prefix_step,
    lemma_count_update, Tiles,
};

verus! {

/// Why a board could not be laid out.
#[derive(Clone, Copy, Debug, PartialEq, Eq, Structural)]
pub enum BoardError {
    /// The width or the height is zero, or the grid would have a single
    /// cell, which cannot be both the start and the finish, or more cells
    /// than a `usize` can count.
    InvalidDimensions,
    /// The number of picks handed in is not the number of holes that a grid
    /// of this size takes.
    PickCount,
}

/// Whether a grid of this width and height can be laid out at all: it has
/// a cell for the start and another for the finish, and no more cells than
/// a `usize` can count.
pub open spec fn dimensions_ok(width: usize, height: usize) -> bool {
    width >= 1 && height >= 1 && 2 <= width * height <= usize::MAX
}

/// The error, if any, that keeps a board of this width and height from
/// being laid out with these picks.
pub open spec fn picks_error(width: usize, height: usize, picks: Seq<usize>) -> Option<
    BoardError,
> {
    if !dimensions_ok(width, height) {
        Some(BoardError::InvalidDimensions)
    } else if picks.len() != hole_count((width * height) as nat) {
        Some(BoardError::PickCount)
    } else {
        None
    }
}

/// The number of cells of a grid of this width and height, if such a grid
/// can be laid out.
fn cell_count(width: usize, height: usize) -> (r: Option<usize>)
    ensures
        match r {
            Some(cells) => dimensions_ok(width, height) && cells == width * height,
            None => !dimensions_ok(width, height),
        },
{
    if width == 0 || height == 0 {
        return None;
    }
    match width.checked_mul(height) {
        Some(cells) => if cells >= 2 {
            Some(cells)
        } else {
            None
        },
        None => None,
    }
}

/// Builds the blank grid of the given number of cells.
fn blank_tiles(cells: usize) -> (tiles: Vec<Tiles>)
    requires
        cells >= 2,
    ensures
        tiles@ == blank(cells as nat),
{
    let mut tiles: Vec<Tiles> = Vec::new();
    let mut i: usize = 0;
    while i < cells
        invariant
            i <= cells,
            tiles@.len() == i,
            forall|j: int| 0 <= j < i ==> tiles@[j] == Tiles::Empty,
        decreases cells - i,
    {
        tiles.push(Tiles::Empty);
        i += 1;
    }
    tiles[0] = Tiles::Start;
    tiles[cells - 1] = Tiles::Finish;
    assert(tiles@ =~= blank(cells as nat));
    tiles
}

/// Turns the empty cell that has exactly `k` empty cells before it into a
/// hole, and returns its index.
fn place_hole(tiles: &mut Vec<Tiles>, k: usize) -> (at: usize)
    requires
        k < count_of(old(tiles)@, Tiles::Empty),
    ensures
        is_nth_empty(old(tiles)@, k as nat, at as int),
        final(tiles)@ == old(tiles)@.update(at as int, Tiles::Hole),
{
    let mut at: usize = 0;
    let mut seen: usize = 0;
    proof {
        lemma_count_bounded(tiles@, Tiles::Empty);
        assert(tiles@.take(0) =~= Seq::<Tiles>::empty());
    }
    while !(tiles[at] == Tiles::Empty && seen == k)
        invariant
            tiles@ == old(tiles)@,
            at < tiles.len(),
            seen <= k,
            k < count_of(tiles@, Tiles::Empty),
            seen == count_of(tiles@.take(at as int), Tiles::Empty),
        decreases tiles.len() - at,
    {
        proof {
            lemma_count_prefix_step(tiles@, Tiles::Empty, at as int);
            assert(tiles@.take(tiles.len() as int) =~= tiles@);
        }
        if tiles[at] == Tiles::Empty {
            seen += 1;
        }
        at += 1;
    }
    tiles[at] = Tiles::Hole;
    at
}

/// A rectangular grid of cells, stored row by row: the cell in column `x`
/// of row `y` has the index `y * width + x`.
#[derive(Debug)]
pub struct Board {
    tiles: Vec<Tiles>,
    width: usize,
    height: usize,
}

impl View for Board {
    type V = Seq<Tiles>;

    /// The cells, row by row.
    closed spec fn view(&self) -> Seq<Tiles> {
        self.tiles@
    }
}

impl Board {
    /// The number of columns.
    pub closed spec fn spec_width(&self) -> nat {
        self.width as nat
    }

    /// The number of rows.
    pub closed spec fn spec_height(&self) -> nat {
        self.height as nat
    }

    /// The board is laid out as every board is. This holds of every board
    /// at all times.
    #[verifier::type_invariant]
    pub open spec fn wf(&self) -> bool {
        &&& self.spec_width() * self.spec_height() <= usize::MAX
        &&& valid_layout(self.spec_width(), self.spec_height(), self@)
    }

    /// Lays out a board whose holes are dug as the picks say: for each pick
    /// in turn, the pick modulo the number of cells that are still empty is
    /// the rank, in index order, of the empty cell that becomes a hole.
    pub fn from_picks(width: usize, height: usize, picks: &Vec<usize>) -> (r: Result<
        Board,
        BoardError,
    >)
        ensures
            match r {
                Ok(board) => {
                    &&& picks_error(width, height, picks@) is None
                    &&& board.spec_width() == width
                    &&& board.spec_height() == height
                    &&& board@ == layout((width * height) as nat, picks@)
                    &&& board.wf()
                },
                Err(e) => picks_error(width, height, picks@) == Some(e),
            },
    {
        let cells = match cell_count(width, height) {
            Some(cells) => cells,
            None => {
                return Err(BoardError::InvalidDimensions);
            },
        };
        let holes = cells / 10;
        if picks.len() != holes {
            return Err(BoardError::PickCount);
        }
        let mut tiles = blank_tiles(cells);
        let mut placed: usize = 0;
        proof {
            assert(picks@.take(0) =~= Seq::<usize>::empty());
            lemma_count_absent(tiles@, Tiles::Hole);
        }
        while placed < holes
            invariant
                placed <= holes,
                holes == cells / 10,
                picks@.len() == holes,
                tiles@.len() == cells,
                framed(tiles@),
                count_of(tiles@, Tiles::Hole) == placed,
                tiles@ == layout(cells as nat, picks@.take(placed as int)),
            decreases holes - placed,
        {
            let ghost before = tiles@;
            proof {
                lemma_framed_counts(before);
            }
            let empties = cells - 2 - placed;
            let k = picks[placed] % empties;
            let at = place_hole(&mut tiles, k);
            proof {
                lemma_nth_empty_unique(before, k as nat, at as int, nth_empty(before, k as nat));
                lemma_count_update(before, at as int, Tiles::Hole, Tiles::Hole);
                assert(picks@.take(placed + 1).drop_last() =~= picks@.take(placed as int));
            }
            placed += 1;
        }
        assert(picks@.take(holes as int) =~= picks@);
        Ok(Board { tiles, width, height })
    }

    /// Lays out a board with holes in random places.
    ///
    /// One number is drawn per hole, and the holes are dug as `from_picks`
    /// digs them. Whatever is drawn, the board is laid out as every board
    /// is.
    pub fn new(width: usize, height: usize) -> (r: Result<Board, BoardError>)
        ensures
            match r {
                Ok(board) => {
                    &&& dimensions_ok(width, height)
                    &&& board.spec_width() == width
                    &&& board.spec_height() == height
                    &&& board.wf()
                    &&& exists|picks: Seq<usize>|
                        picks.len() == hole_count((width * height) as nat) && board@
                            == #[trigger] layout((width * height) as nat, picks)
                },
                Err(e) => !dimensions_ok(width, height) && e == BoardError::InvalidDimensions,
            },
    {
        let cells = match cell_count(width, height) {
            Some(cells) => cells,
            None => {
                return Err(BoardError::InvalidDimensions);
            },
        };
        let holes = cells / 10;
        let mut picks: Vec<usize> = Vec::new();
        while picks.len() < holes
            invariant
                dimensions_ok(width, height),
                cells == width * height,
                holes == cells / 10,
                picks.len() <= holes,
            decreases holes - picks.len(),
        {
            picks.push(random_usize());
        }
        Board::from_picks(width, height, &picks)
    }

    /// The number of columns.
    pub fn width(&self) -> (w: usize)
        ensures
            w == self.spec_width(),
    {
        self.width
    }

    /// The number of rows.
    pub fn height(&self) -> (h: usize)
        ensures
            h == self.spec_height(),
    {
        self.height
    }

    /// The cell in column `x` of row `y`.
    pub fn tile(&self, x: usize, y: usize) -> (tile: Tiles)
        requires
            x < self.spec_width(),
            y < self.spec_height(),
        ensures
            tile == self@[y * self.spec_width() + x],
    {
        proof {
            use_type_invariant(self);
            lemma_cell_index(self.width as nat, self.height as nat, x as nat, y as nat);
        }
        self.tiles[y * self.width + x]
    }
}

} // verus!
