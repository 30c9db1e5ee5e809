use checkers::board::Square;
use checkers::logic::{GameState, Move};

#[test]
fn fresh_game_renders_the_standard_layout() {
    let game = GameState::create();
    let expected = "+----------------+\n\
                    |x   x   x   x   |\n\
                    |  x   x   x   x |\n\
                    |x   x   x   x   |\n\
                    |                |\n\
                    |                |\n\
                    |  o   o   o   o |\n\
                    |o   o   o   o   |\n\
                    |  o   o   o   o |\n\
                    +----------------+\n";
    assert_eq!(game.render(), expected);
}

#[test]
fn render_tracks_an_applied_move() {
    let mut game = GameState::create();
    let step = Move {
        from: Square(2, 2),
        to: Square(3, 3),
    };
    assert_eq!(game.handle_move(step), Ok(()));
    let expected = "+----------------+\n\
                    |x   x   x   x   |\n\
                    |  x   x   x   x |\n\
                    |x       x   x   |\n\
                    |      x         |\n\
                    |                |\n\
                    |  o   o   o   o |\n\
                    |o   o   o   o   |\n\
                    |  o   o   o   o |\n\
                    +----------------+\n";
    assert_eq!(game.render(), expected);
}
