use grid_world::{Actions, Board, BoardError, Env, Position, State};

fn all_actions() -> [Actions; 4] {
    [Actions::Up, Actions::Down, Actions::Left, Actions::Right]
}

#[test]
fn a_new_game_starts_in_the_corner() {
    let env = Env::new(10, 10).unwrap();
    assert_eq!(env.agent(), Position { x: 0, y: 0 });
    assert_eq!(env.state(), State::Playing);
    assert_eq!(env.board().width(), 10);
    assert_eq!(env.board().height(), 10);
}

#[test]
fn a_new_game_needs_a_board() {
    assert_eq!(Env::new(0, 10).err(), Some(BoardError::InvalidDimensions));
    assert_eq!(Env::new(10, 0).err(), Some(BoardError::InvalidDimensions));
    assert_eq!(Env::new(usize::MAX, 3).err(), Some(BoardError::InvalidDimensions));
}

#[test]
fn stepping_at_a_hole_to_the_right_loses() {
    let mut env = Env::with_board(Board::from_picks(10, 2, &vec![0, 0]).unwrap());
    env.step(Actions::Right);
    assert_eq!(env.state(), State::Lose);
    assert_eq!(env.agent(), Position { x: 0, y: 0 });
}

#[test]
fn stepping_at_a_hole_below_loses() {
    let mut env = Env::with_board(Board::from_picks(10, 2, &vec![9, 0]).unwrap());
    assert_eq!(env.render(), "PO........\nO........F\n");
    env.step(Actions::Down);
    assert_eq!(env.state(), State::Lose);
    assert_eq!(env.agent(), Position { x: 0, y: 0 });
}

#[test]
fn stepping_at_a_hole_from_the_middle_of_the_board_loses() {
    // The hole is at column 2 of row 1; the agent walks to its left, then
    // to the cell above it, and is sent into it from both.
    let board = || Board::from_picks(4, 3, &vec![5]).unwrap();
    assert_eq!(board().render(), "S...\n..O.\n...F\n");
    let mut env = Env::with_board(board());
    env.step(Actions::Down);
    env.step(Actions::Right);
    assert_eq!(env.agent(), Position { x: 1, y: 1 });
    env.step(Actions::Right);
    assert_eq!(env.state(), State::Lose);
    assert_eq!(env.agent(), Position { x: 1, y: 1 });

    let mut env = Env::with_board(board());
    env.step(Actions::Right);
    env.step(Actions::Right);
    assert_eq!(env.agent(), Position { x: 2, y: 0 });
    env.step(Actions::Down);
    assert_eq!(env.state(), State::Lose);
    assert_eq!(env.agent(), Position { x: 2, y: 0 });

    let mut env = Env::with_board(board());
    for action in [Actions::Down, Actions::Down, Actions::Right, Actions::Right] {
        env.step(action);
    }
    assert_eq!(env.agent(), Position { x: 2, y: 2 });
    assert_eq!(env.state(), State::Playing);
    env.step(Actions::Up);
    assert_eq!(env.state(), State::Lose);
    assert_eq!(env.agent(), Position { x: 2, y: 2 });
}

#[test]
fn left_and_up_from_the_corner_change_nothing() {
    for action in [Actions::Left, Actions::Up] {
        let mut env = Env::new(10, 10).unwrap();
        env.step(action);
        assert_eq!(env.agent(), Position { x: 0, y: 0 });
        assert_eq!(env.state(), State::Playing);
    }
}

#[test]
fn right_and_down_stop_at_the_far_walls() {
    let mut env = Env::with_board(Board::from_picks(3, 3, &vec![]).unwrap());
    env.step(Actions::Right);
    env.step(Actions::Right);
    assert_eq!(env.agent(), Position { x: 2, y: 0 });
    env.step(Actions::Right);
    assert_eq!(env.agent(), Position { x: 2, y: 0 });
    assert_eq!(env.state(), State::Playing);

    let mut env = Env::with_board(Board::from_picks(3, 3, &vec![]).unwrap());
    env.step(Actions::Down);
    env.step(Actions::Down);
    assert_eq!(env.agent(), Position { x: 0, y: 2 });
    env.step(Actions::Down);
    assert_eq!(env.agent(), Position { x: 0, y: 2 });
    assert_eq!(env.state(), State::Playing);
}

#[test]
fn right_on_two_by_one_wins() {
    let mut env = Env::new(2, 1).unwrap();
    env.step(Actions::Right);
    assert_eq!(env.state(), State::Win);
    assert_eq!(env.agent(), Position { x: 0, y: 0 });
}

#[test]
fn down_on_one_by_two_wins() {
    let mut env = Env::new(1, 2).unwrap();
    env.step(Actions::Down);
    assert_eq!(env.state(), State::Win);
    assert_eq!(env.agent(), Position { x: 0, y: 0 });
}

#[test]
fn a_won_game_stays_won() {
    for action in all_actions() {
        let mut env = Env::new(2, 1).unwrap();
        env.step(Actions::Right);
        assert_eq!(env.state(), State::Win);
        for _ in 0..3 {
            env.step(action);
            assert_eq!(env.state(), State::Win);
            assert_eq!(env.agent(), Position { x: 0, y: 0 });
        }
    }
}

#[test]
fn a_lost_game_stays_lost() {
    for action in all_actions() {
        let mut env = Env::with_board(Board::from_picks(4, 3, &vec![5]).unwrap());
        env.step(Actions::Down);
        env.step(Actions::Right);
        env.step(Actions::Right);
        assert_eq!(env.state(), State::Lose);
        for _ in 0..3 {
            env.step(action);
            assert_eq!(env.state(), State::Lose);
            assert_eq!(env.agent(), Position { x: 1, y: 1 });
        }
    }
}

#[test]
fn the_agent_walks_over_empty_cells_and_the_start() {
    let mut env = Env::with_board(Board::from_picks(3, 3, &vec![]).unwrap());
    env.step(Actions::Right);
    assert_eq!(env.agent(), Position { x: 1, y: 0 });
    env.step(Actions::Down);
    assert_eq!(env.agent(), Position { x: 1, y: 1 });
    env.step(Actions::Left);
    assert_eq!(env.agent(), Position { x: 0, y: 1 });
    env.step(Actions::Up);
    assert_eq!(env.agent(), Position { x: 0, y: 0 });
    assert_eq!(env.state(), State::Playing);
}

#[test]
fn a_walk_to_the_finish_wins_one_cell_short() {
    let mut env = Env::with_board(Board::from_picks(3, 3, &vec![]).unwrap());
    for action in [Actions::Right, Actions::Right, Actions::Down] {
        env.step(action);
        assert_eq!(env.state(), State::Playing);
    }
    env.step(Actions::Down);
    assert_eq!(env.state(), State::Win);
    assert_eq!(env.agent(), Position { x: 2, y: 1 });
}

#[test]
fn a_board_of_one_cell_gives_no_game() {
    assert_eq!(Env::new(1, 1).err(), Some(BoardError::InvalidDimensions));
}

#[test]
fn walls_on_all_sides_but_the_finish() {
    let mut env = Env::new(2, 1).unwrap();
    for action in [Actions::Up, Actions::Down, Actions::Left] {
        env.step(action);
        assert_eq!(env.agent(), Position { x: 0, y: 0 });
        assert_eq!(env.state(), State::Playing);
    }
}

#[test]
fn the_board_never_changes_during_play() {
    let mut env = Env::with_board(Board::from_picks(5, 4, &vec![3, 8]).unwrap());
    let before = env.board().render();
    for action in [Actions::Down, Actions::Right, Actions::Down, Actions::Left, Actions::Up] {
        env.step(action);
        assert_eq!(env.board().render(), before);
    }
}

#[test]
fn the_agent_is_drawn_over_its_cell() {
    let mut env = Env::with_board(Board::from_picks(3, 3, &vec![]).unwrap());
    assert_eq!(env.render(), "P..\n...\n..F\n");
    env.step(Actions::Right);
    assert_eq!(env.render(), "SP.\n...\n..F\n");
    env.step(Actions::Down);
    assert_eq!(env.render(), "S..\n.P.\n..F\n");
    assert_eq!(env.board().render(), "S..\n...\n..F\n");
}

#[test]
fn actions_are_numbered() {
    assert_eq!(Actions::from_index(0), Actions::Up);
    assert_eq!(Actions::from_index(1), Actions::Down);
    assert_eq!(Actions::from_index(2), Actions::Left);
    assert_eq!(Actions::from_index(3), Actions::Right);
}

#[test]
fn a_draw_counts_modulo_four() {
    assert_eq!(Actions::from_draw(0), Actions::Up);
    assert_eq!(Actions::from_draw(1), Actions::Down);
    assert_eq!(Actions::from_draw(2), Actions::Left);
    assert_eq!(Actions::from_draw(3), Actions::Right);
    assert_eq!(Actions::from_draw(4), Actions::Up);
    assert_eq!(Actions::from_draw(9), Actions::Down);
    assert_eq!(Actions::from_draw(4_000_002), Actions::Left);
    assert_eq!(Actions::from_draw(usize::MAX), Actions::Right);
}

#[test]
fn sampling_draws_every_action_sooner_or_later() {
    let mut seen = [false; 4];
    for _ in 0..2000 {
        match Actions::sample() {
            Actions::Up => seen[0] = true,
            Actions::Down => seen[1] = true,
            Actions::Left => seen[2] = true,
            Actions::Right => seen[3] = true,
        }
    }
    assert_eq!(seen, [true; 4]);
}

#[test]
fn random_board_holes_move_between_draws() {
    // With ten holes among ninety-eight cells, fifty boards that all agree
    // would mean that nothing is drawn at all.
    let first = Board::new(10, 10).unwrap().render();
    let mut differs = false;
    for _ in 0..50 {
        if Board::new(10, 10).unwrap().render() != first {
            differs = true;
        }
    }
    assert!(differs);
}

#[test]
fn a_random_walk_stays_on_the_board_and_ends_for_good() {
    for _ in 0..50 {
        let mut env = Env::new(6, 5).unwrap();
        let mut over: Option<(Position, State)> = None;
        for _ in 0..500 {
            let before = env.agent();
            env.step(Actions::sample());
            let agent = env.agent();
            assert!(agent.x < 6 && agent.y < 5);
            match over {
                Some(end) => assert_eq!((agent, env.state()), end),
                None => {
                    if env.state() != State::Playing {
                        assert_eq!(agent, before);
                        over = Some((agent, env.state()));
                    }
                }
            }
        }
    }
}
