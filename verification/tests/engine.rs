use checkers::board::{Colour, Figure, Square};
use checkers::logic::{get_legal_moves, ErrorKind, GameState, Move};

fn expected_initial_cell(col: usize, row: usize) -> Option<Figure> {
    if (col + row) % 2 == 0 && row < 3 {
        Some(Figure::create(Colour::White))
    } else if (col + row) % 2 == 0 && row >= 5 {
        Some(Figure::create(Colour::Red))
    } else {
        None
    }
}

fn mv(fc: usize, fr: usize, tc: usize, tr: usize) -> Move {
    Move {
        from: Square(fc, fr),
        to: Square(tc, tr),
    }
}

#[test]
fn initial_layout() {
    let game = GameState::create();
    assert_eq!(game.turn(), Colour::White);
    assert_eq!(game.current_move(), 0);
    assert_eq!(game.move_log().len(), 0);
    for col in 0..8usize {
        for row in 0..8usize {
            assert_eq!(
                game.piece_at(Square(col, row)),
                expected_initial_cell(col, row)
            );
        }
    }
}

#[test]
fn initial_moves_are_single_steps() {
    let game = GameState::create();
    let moves = game.legal_moves();
    assert_eq!(moves, get_legal_moves(game.board(), &Colour::White));
    assert_eq!(moves.len(), 7);
    for m in moves {
        let from_piece = game.piece_at(m.from).expect("source must hold a piece");
        assert_eq!(from_piece.colour, Colour::White);
        assert!(!from_piece.crowned);
        assert!(game.piece_at(m.to).is_none());
        assert_eq!(m.to.1, m.from.1 + 1);
        let dc = if m.to.0 > m.from.0 {
            m.to.0 - m.from.0
        } else {
            m.from.0 - m.to.0
        };
        assert_eq!(dc, 1);
    }
}

#[test]
fn step_move_updates_only_the_two_cells() {
    let mut game = GameState::create();
    let step = mv(2, 2, 3, 3);
    assert_eq!(game.handle_move(step), Ok(()));

    assert_eq!(game.piece_at(Square(2, 2)), None);
    assert_eq!(game.piece_at(Square(3, 3)), Some(Figure::create(Colour::White)));
    assert_eq!(game.turn(), Colour::Red);
    assert_eq!(game.current_move(), 1);
    assert_eq!(game.move_log().len(), 1);
    assert_eq!(game.move_log()[0], step);

    for col in 0..8usize {
        for row in 0..8usize {
            if (col, row) != (2, 2) && (col, row) != (3, 3) {
                assert_eq!(
                    game.piece_at(Square(col, row)),
                    expected_initial_cell(col, row)
                );
            }
        }
    }
}

#[test]
fn jump_move_captures_the_midpoint() {
    let mut game = GameState::create();
    assert_eq!(game.handle_move(mv(2, 2, 3, 3)), Ok(()));
    assert_eq!(game.handle_move(mv(5, 5, 4, 4)), Ok(()));
    // White jumps from (3,3) over the Red piece on (4,4) to (5,5).
    assert_eq!(game.handle_move(mv(3, 3, 5, 5)), Ok(()));

    assert_eq!(game.piece_at(Square(3, 3)), None);
    assert_eq!(game.piece_at(Square(4, 4)), None);
    assert_eq!(game.piece_at(Square(5, 5)), Some(Figure::create(Colour::White)));
    assert_eq!(game.turn(), Colour::Red);
    assert_eq!(game.current_move(), 3);
    assert_eq!(game.move_log().len(), 3);
}

#[test]
fn jump_into_occupied_destination_is_refused() {
    let mut game = GameState::create();
    assert_eq!(game.handle_move(mv(2, 2, 3, 3)), Ok(()));
    assert_eq!(game.handle_move(mv(3, 5, 4, 4)), Ok(()));
    // The jump over (4,4) is generated, but (5,5) still holds a Red
    // piece, so the application guard refuses it.
    assert_eq!(
        game.handle_move(mv(3, 3, 5, 5)),
        Err(ErrorKind::OccupiedDestination)
    );

    // Nothing changed.
    assert_eq!(game.turn(), Colour::White);
    assert_eq!(game.current_move(), 2);
    assert_eq!(game.move_log().len(), 2);
    assert_eq!(game.piece_at(Square(3, 3)), Some(Figure::create(Colour::White)));
    assert_eq!(game.piece_at(Square(4, 4)), Some(Figure::create(Colour::Red)));
    assert_eq!(game.piece_at(Square(5, 5)), Some(Figure::create(Colour::Red)));
}

#[test]
fn illegal_move_leaves_the_game_untouched() {
    let mut game = GameState::create();

    // Not diagonal.
    assert_eq!(game.handle_move(mv(0, 2, 0, 3)), Err(ErrorKind::IllegalMove));
    // Not this side's piece.
    assert_eq!(game.handle_move(mv(5, 5, 4, 4)), Err(ErrorKind::IllegalMove));
    // Wrong direction for an un-crowned White piece.
    assert_eq!(game.handle_move(mv(1, 1, 0, 0)), Err(ErrorKind::IllegalMove));
    // From an empty square.
    assert_eq!(game.handle_move(mv(3, 3, 4, 4)), Err(ErrorKind::IllegalMove));

    assert_eq!(game.turn(), Colour::White);
    assert_eq!(game.current_move(), 0);
    assert_eq!(game.move_log().len(), 0);
    for col in 0..8usize {
        for row in 0..8usize {
            assert_eq!(
                game.piece_at(Square(col, row)),
                expected_initial_cell(col, row)
            );
        }
    }
}

#[test]
fn white_is_crowned_on_the_far_rank() {
    let mut game = GameState::create();
    assert_eq!(game.handle_move(mv(2, 2, 3, 3)), Ok(()));
    assert_eq!(game.handle_move(mv(5, 5, 4, 4)), Ok(()));
    assert_eq!(game.handle_move(mv(3, 3, 5, 5)), Ok(()));
    assert_eq!(game.handle_move(mv(1, 5, 2, 4)), Ok(()));
    assert_eq!(game.handle_move(mv(4, 2, 3, 3)), Ok(()));
    assert_eq!(game.handle_move(mv(2, 6, 1, 5)), Ok(()));
    assert_eq!(game.handle_move(mv(0, 2, 1, 3)), Ok(()));
    assert_eq!(game.handle_move(mv(3, 7, 2, 6)), Ok(()));
    // White jumps from (5,5) over the Red piece on (4,6) onto the back
    // rank at (3,7) and is crowned on landing.
    assert_eq!(game.handle_move(mv(5, 5, 3, 7)), Ok(()));

    let crowned = game.piece_at(Square(3, 7)).expect("the jumper landed here");
    assert_eq!(crowned.colour, Colour::White);
    assert!(crowned.crowned);
    assert_eq!(game.piece_at(Square(4, 6)), None);
    assert_eq!(game.piece_at(Square(5, 5)), None);
    assert_eq!(game.current_move(), 9);
    assert_eq!(game.move_log().len(), 9);
    assert_eq!(game.turn(), Colour::Red);
}

#[test]
fn error_messages() {
    assert_eq!(ErrorKind::IllegalMove.message(), "Move not allowed!");
    assert_eq!(
        ErrorKind::OccupiedDestination.message(),
        "The target field already has a figure on it!"
    );
    assert_eq!(
        ErrorKind::EmptySource.message(),
        "There is no piece on this field!"
    );
}

#[test]
fn counter_and_log_stay_in_step() {
    let mut game = GameState::create();
    let first = mv(2, 2, 3, 3);
    let second = mv(5, 5, 4, 4);
    assert_eq!(game.handle_move(first), Ok(()));
    assert_eq!(game.handle_move(second), Ok(()));
    assert_eq!(game.current_move(), 2);
    assert_eq!(game.move_log().as_slice(), &[first, second]);
}
