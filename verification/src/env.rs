//! The environment: a board, the agent on it, and the rule by which one
//! action moves the game on.

use vstd::prelude::*;
use crate::board::{dimensions_ok, Board, BoardError};
use crate::layout::{hole_count, layout, lemma_cell_index};
use crate::rng::random_usize;
use crate::tiles::Tiles;

verus! {

/// A cell of the board: column `x`, counted from the left, in row `y`,
/// counted from the top.
#[derive(Clone, Copy, Debug, PartialEq, Eq, Structural)]
pub struct Position {
    pub x: usize,
    pub y: usize,
}

/// How the game stands. `Win` and `Lose` are final.
#[derive(Clone, Copy, Debug, PartialEq, Eq, Structural)]
pub enum State {
    Playing,
    Win,
    Lose,
}

/// One move of the agent, by one cell.
#[derive(Clone, Copy, Debug, PartialEq, Eq, Structural)]
pub enum Actions {
    Up,
    Down,
    Left,
    Right,
}

/// The action with the given number: 0 is up, 1 down, 2 left, 3 right.
pub open spec fn action_of(index: int) -> Actions {
    if index == 0 {
        Actions::Up
    } else if index == 1 {
        Actions::Down
    } else if index == 2 {
        Actions::Left
    } else {
        Actions::Right
    }
}

/// By how much an action changes the column and the row. Rows are counted
/// downwards.
pub open spec fn displacement(action: Actions) -> (int, int) {
    match action {
        Actions::Up => (0, -1),
        Actions::Down => (0, 1),
        Actions::Left => (-1, 0),
        Actions::Right => (1, 0),
    }
}

/// The column and the row that an action aims at. Either may lie off the
/// board.
pub open spec fn target(agent: Position, action: Actions) -> (int, int) {
    (agent.x + displacement(action).0, agent.y + displacement(action).1)
}

/// Whether a column and a row lie on a board of the given size.
pub open spec fn on_board(width: nat, height: nat, x: int, y: int) -> bool {
    0 <= x < width && 0 <= y < height
}

/// Where the agent stands and how the game stands after one action.
///
/// A game that is over stays as it is. An action that aims off the board
/// changes nothing. One that aims at a hole loses the game, one that aims at
/// the finish wins it, and in both cases the agent stays where it was. Any
/// other action moves the agent to the cell aimed at.
pub open spec fn step_outcome(
    width: nat,
    height: nat,
    tiles: Seq<Tiles>,
    agent: Position,
    state: State,
    action: Actions,
) -> (Position, State) {
    let (x, y) = target(agent, action);
    if state != State::Playing {
        (agent, state)
    } else if !on_board(width, height, x, y) {
        (agent, State::Playing)
    } else {
        match tiles[y * width + x] {
            Tiles::Hole => (agent, State::Lose),
            Tiles::Finish => (agent, State::Win),
            _ => (Position { x: x as usize, y: y as usize }, State::Playing),
        }
    }
}

impl Actions {
    /// The action with the given number: 0 is up, 1 down, 2 left, 3 right.
    pub fn from_index(index: usize) -> (action: Actions)
        requires
            index < 4,
        ensures
            action == action_of(index as int),
    {
        if index == 0 {
            Actions::Up
        } else if index == 1 {
            Actions::Down
        } else if index == 2 {
            Actions::Left
        } else {
            Actions::Right
        }
    }

    /// The action that a drawn number stands for: the one whose number is
    /// the remainder of the draw by four.
    pub fn from_draw(draw: usize) -> (action: Actions)
        ensures
            action == action_of((draw % 4) as int),
    {
        Actions::from_index(draw % 4)
    }

    /// Draws one of the four actions at random: a number is drawn, and the
    /// action is the one that `from_draw` gives for it.
    pub fn sample() -> (action: Actions)
        ensures
            exists|draw: usize| action == #[trigger] action_of((draw % 4) as int),
    {
        Actions::from_draw(random_usize())
    }
}

/// A board, the agent on it, and how the game stands.
#[derive(Debug)]
pub struct Env {
    board: Board,
    agent: Position,
    state: State,
}

impl Env {
    /// The board that the game is played on.
    pub closed spec fn spec_board(&self) -> Board {
        self.board
    }

    /// Where the agent stands.
    pub closed spec fn spec_agent(&self) -> Position {
        self.agent
    }

    /// How the game stands.
    pub closed spec fn spec_state(&self) -> State {
        self.state
    }

    /// The board is laid out as every board is, and the agent stands on it.
    /// This holds of every game at all times.
    #[verifier::type_invariant]
    pub open spec fn wf(&self) -> bool {
        &&& self.spec_board().wf()
        &&& self.spec_agent().x < self.spec_board().spec_width()
        &&& self.spec_agent().y < self.spec_board().spec_height()
    }

    /// Starts a game on the given board: the agent stands in the top left
    /// corner, and the game is on.
    pub fn with_board(board: Board) -> (env: Env)
        ensures
            env.wf(),
            env.spec_board() == board,
            env.spec_agent() == (Position { x: 0, y: 0 }),
            env.spec_state() == State::Playing,
    {
        proof {
            use_type_invariant(&board);
        }
        Env { board, agent: Position { x: 0, y: 0 }, state: State::Playing }
    }

    /// Starts a game on a fresh board with holes in random places.
    pub fn new(width: usize, height: usize) -> (r: Result<Env, BoardError>)
        ensures
            match r {
                Ok(env) => {
                    &&& dimensions_ok(width, height)
                    &&& env.wf()
                    &&& env.spec_board().spec_width() == width
                    &&& env.spec_board().spec_height() == height
                    &&& env.spec_agent() == (Position { x: 0, y: 0 })
                    &&& env.spec_state() == State::Playing
                    &&& exists|picks: Seq<usize>|
                        picks.len() == hole_count((width * height) as nat) && env.spec_board()@
                            == #[trigger] layout((width * height) as nat, picks)
                },
                Err(e) => !dimensions_ok(width, height) && e == BoardError::InvalidDimensions,
            },
    {
        match Board::new(width, height) {
            Ok(board) => Ok(Env::with_board(board)),
            Err(e) => Err(e),
        }
    }

    /// The board that the game is played on.
    pub fn board(&self) -> (board: &Board)
        ensures
            *board == self.spec_board(),
    {
        &self.board
    }

    /// Where the agent stands.
    pub fn agent(&self) -> (agent: Position)
        ensures
            agent == self.spec_agent(),
    {
        self.agent
    }

    /// How the game stands.
    pub fn state(&self) -> (state: State)
        ensures
            state == self.spec_state(),
    {
        self.state
    }

    /// Moves the game on by one action.
    pub fn step(&mut self, action: Actions)
        ensures
            final(self).wf(),
            final(self).spec_board() == old(self).spec_board(),
            (final(self).spec_agent(), final(self).spec_state()) == step_outcome(
                old(self).spec_board().spec_width(),
                old(self).spec_board().spec_height(),
                old(self).spec_board()@,
                old(self).spec_agent(),
                old(self).spec_state(),
                action,
            ),
    {
        proof {
            use_type_invariant(&*self);
        }
        match self.state {
            State::Playing => {},
            _ => {
                return ;
            },
        }
        let width = self.board.width();
        let height = self.board.height();
        let Position { x, y } = self.agent;
        let aimed = match action {
            Actions::Up => if y == 0 {
                None
            } else {
                Some(Position { x, y: y - 1 })
            },
            Actions::Down => if y + 1 >= height {
                None
            } else {
                Some(Position { x, y: y + 1 })
            },
            Actions::Left => if x == 0 {
                None
            } else {
                Some(Position { x: x - 1, y })
            },
            Actions::Right => if x + 1 >= width {
                None
            } else {
                Some(Position { x: x + 1, y })
            },
        };
        match aimed {
            None => {},
            Some(next) => {
                match self.board.tile(next.x, next.y) {
                    Tiles::Hole => {
                        self.state = State::Lose;
                    },
                    Tiles::Finish => {
                        self.state = State::Win;
                    },
                    _ => {
                        self.agent = next;
                    },
                }
            },
        }
    }
}

/// An action that aims at a hole loses the game and leaves the agent where
/// it stood.
pub proof fn law_hole_loses(
    width: nat,
    height: nat,
    tiles: Seq<Tiles>,
    agent: Position,
    action: Actions,
)
    requires
        on_board(width, height, target(agent, action).0, target(agent, action).1),
        tiles[target(agent, action).1 * width + target(agent, action).0] == Tiles::Hole,
    ensures
        step_outcome(width, height, tiles, agent, State::Playing, action) == (agent, State::Lose),
{
}

/// An action that aims at the finish wins the game and leaves the agent
/// where it stood.
pub proof fn law_finish_wins(
    width: nat,
    height: nat,
    tiles: Seq<Tiles>,
    agent: Position,
    action: Actions,
)
    requires
        on_board(width, height, target(agent, action).0, target(agent, action).1),
        tiles[target(agent, action).1 * width + target(agent, action).0] == Tiles::Finish,
    ensures
        step_outcome(width, height, tiles, agent, State::Playing, action) == (agent, State::Win),
{
}

/// An action that aims off the board changes nothing. In particular, an
/// agent in the top left corner stays there when it is sent left or up.
pub proof fn law_wall_blocks(
    width: nat,
    height: nat,
    tiles: Seq<Tiles>,
    agent: Position,
    action: Actions,
)
    ensures
        !on_board(width, height, target(agent, action).0, target(agent, action).1)
            ==> step_outcome(width, height, tiles, agent, State::Playing, action) == (
            agent,
            State::Playing,
        ),
        agent == (Position { x: 0, y: 0 }) && (action == Actions::Left || action == Actions::Up)
            ==> step_outcome(width, height, tiles, agent, State::Playing, action) == (
            agent,
            State::Playing,
        ),
{
}

/// Once the game is won or lost, no action changes where the agent stands
/// or how the game stands.
pub proof fn law_game_over_is_final(
    width: nat,
    height: nat,
    tiles: Seq<Tiles>,
    agent: Position,
    state: State,
    action: Actions,
)
    requires
        state == State::Win || state == State::Lose,
    ensures
        step_outcome(width, height, tiles, agent, state, action) == (agent, state),
{
}

/// Whatever the action, the agent stays on the board, and a game that is
/// over was either over before or ended by this action without the agent
/// having moved.
pub proof fn law_agent_stays_on_board(
    width: nat,
    height: nat,
    tiles: Seq<Tiles>,
    agent: Position,
    state: State,
    action: Actions,
)
    requires
        agent.x < width,
        agent.y < height,
        width * height <= usize::MAX,
    ensures
        step_outcome(width, height, tiles, agent, state, action).0.x < width,
        step_outcome(width, height, tiles, agent, state, action).0.y < height,
        step_outcome(width, height, tiles, agent, state, action).1 != State::Playing
            ==> step_outcome(width, height, tiles, agent, state, action).0 == agent,
{
    let (x, y) = target(agent, action);
    if on_board(width, height, x, y) {
        lemma_cell_index(width, height, x as nat, y as nat);
    }
}

} // verus!
