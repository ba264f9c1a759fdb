//! Boards as text: one line per row, one character per cell.

use vstd::prelude::*;
use crate::board::Board;
use crate::layout::{lemma_cell_index, valid_layout};
use crate::env::{Env, Position};
use crate::tiles::{glyph_of, Tiles};

verus! {

/// `String::push` appends the given character to the end of the string and
/// leaves what stood there before as it was.
pub assume_specification[ String::push ](s: &mut String, ch: char)
    ensures
        final(s)@ == old(s)@.push(ch),
;

/// The character shown for the cell in column `x` of row `y`: the player
/// marker where the agent stands, the glyph of the cell's kind elsewhere.
pub open spec fn shown(s: Seq<Tiles>, width: nat, agent: Option<Position>, x: int, y: int) -> char {
    if agent matches Some(p) && p.x == x && p.y == y {
        glyph_of(Tiles::Player)
    } else {
        glyph_of(s[y * width + x])
    }
}

/// The first `cols` characters of row `y`.
pub open spec fn row_cells(
    s: Seq<Tiles>,
    width: nat,
    agent: Option<Position>,
    y: int,
    cols: nat,
) -> Seq<char> {
    Seq::new(cols, |x: int| shown(s, width, agent, x, y))
}

/// The first `rows` rows as text: each row is its cells from left to right,
/// followed by a line feed.
pub open spec fn rendered(s: Seq<Tiles>, width: nat, agent: Option<Position>, rows: nat) -> Seq<
    char,
>
    decreases rows,
{
    if rows == 0 {
        Seq::empty()
    } else {
        rendered(s, width, agent, (rows - 1) as nat) + row_cells(
            s,
            width,
            agent,
            rows - 1,
            width,
        ).push('\n')
    }
}

/// Renders the board, with the player marker at `agent` if there is one.
fn render_cells(board: &Board, agent: Option<Position>) -> (text: String)
    ensures
        text@ == rendered(board@, board.spec_width(), agent, board.spec_height()),
{
    let width = board.width();
    let height = board.height();
    let mut text = String::new();
    let mut y: usize = 0;
    while y < height
        invariant
            width == board.spec_width(),
            height == board.spec_height(),
            y <= height,
            text@ == rendered(board@, width as nat, agent, y as nat),
        decreases height - y,
    {
        let ghost above = text@;
        let mut x: usize = 0;
        while x < width
            invariant
                width == board.spec_width(),
                height == board.spec_height(),
                y < height,
                x <= width,
                text@ == above + row_cells(board@, width as nat, agent, y as int, x as nat),
            decreases width - x,
        {
            let here = match agent {
                Some(p) => p.x == x && p.y == y,
                None => false,
            };
            let c = if here {
                Tiles::Player.glyph()
            } else {
                board.tile(x, y).glyph()
            };
            text.push(c);
            proof {
                assert(row_cells(board@, width as nat, agent, y as int, (x + 1) as nat)
                    =~= row_cells(board@, width as nat, agent, y as int, x as nat).push(c));
                assert(text@ =~= above + row_cells(
                    board@,
                    width as nat,
                    agent,
                    y as int,
                    (x + 1) as nat,
                ));
            }
            x += 1;
        }
        text.push('\n');
        proof {
            assert(text@ =~= above + row_cells(
                board@,
                width as nat,
                agent,
                y as int,
                width as nat,
            ).push('\n'));
        }
        y += 1;
    }
    text
}

impl Board {
    /// The board as text: one line per row, one character per cell, each
    /// line closed by a line feed.
    pub fn render(&self) -> (text: String)
        ensures
            text@ == rendered(self@, self.spec_width(), None, self.spec_height()),
    {
        render_cells(self, None)
    }
}

impl Env {
    /// The board as text, with the player marker in the cell where the
    /// agent stands.
    pub fn render(&self) -> (text: String)
        ensures
            text@ == rendered(
                self.spec_board()@,
                self.spec_board().spec_width(),
                Some(self.spec_agent()),
                self.spec_board().spec_height(),
            ),
    {
        render_cells(self.board(), Some(self.agent()))
    }
}

/// The text of `rows` rows is `rows` lines of `width` characters and a line
/// feed each.
pub proof fn lemma_rendered_len(s: Seq<Tiles>, width: nat, agent: Option<Position>, rows: nat)
    ensures
        rendered(s, width, agent, rows).len() == rows * (width + 1),
    decreases rows,
{
    if rows > 0 {
        let above = (rows - 1) as nat;
        lemma_rendered_len(s, width, agent, above);
        assert(above * (width + 1) + (width + 1) == rows * (width + 1)) by (nonlinear_arith)
            requires
                above + 1 == rows,
        ;
    } else {
        assert(rows * (width + 1) == 0) by (nonlinear_arith)
            requires
                rows == 0,
        ;
    }
}

/// A rendered board has as many lines as the board has rows; each line has
/// as many characters as the board has columns, and then a line feed; and
/// the character in column `x` of line `y` is the one shown for the cell in
/// column `x` of row `y`.
pub proof fn law_rendering_matches_cells(
    s: Seq<Tiles>,
    width: nat,
    height: nat,
    agent: Option<Position>,
    x: nat,
    y: nat,
)
    requires
        x < width,
        y < height,
    ensures
        rendered(s, width, agent, height).len() == height * (width + 1),
        0 <= y * (width + 1) + x < y * (width + 1) + width < height * (width + 1),
        rendered(s, width, agent, height)[(y * (width + 1) + x) as int] == shown(
            s,
            width,
            agent,
            x as int,
            y as int,
        ),
        rendered(s, width, agent, height)[(y * (width + 1) + width) as int] == '\n',
    decreases height,
{
    lemma_rendered_len(s, width, agent, height);
    lemma_rendered_len(s, width, agent, (height - 1) as nat);
    lemma_cell_index(width + 1, height, x, y);
    lemma_cell_index(width + 1, height, width, y);
    let above = rendered(s, width, agent, (height - 1) as nat);
    let line = row_cells(s, width, agent, height - 1, width).push('\n');
    assert(rendered(s, width, agent, height) == above + line);
    if y == height - 1 {
        assert((above + line)[(above.len() + x) as int] == line[x as int]);
        assert((above + line)[(above.len() + width) as int] == line[width as int]);
    } else {
        law_rendering_matches_cells(s, width, (height - 1) as nat, agent, x, y);
    }
}

/// On a board without an agent marked, every cell is shown as one of the
/// four glyphs for an empty cell, a hole, the finish and the start.
pub proof fn law_rendering_glyphs(s: Seq<Tiles>, width: nat, height: nat, x: nat, y: nat)
    requires
        valid_layout(width, height, s),
        x < width,
        y < height,
    ensures
        shown(s, width, None, x as int, y as int) == glyph_of(s[(y * width + x) as int]),
        shown(s, width, None, x as int, y as int) == '.' || shown(
            s,
            width,
            None,
            x as int,
            y as int,
        ) == 'O' || shown(s, width, None, x as int, y as int) == 'F' || shown(
            s,
            width,
            None,
            x as int,
            y as int,
        ) == 'S',
{
    lemma_cell_index(width, height, x, y);
}

} // verus!
