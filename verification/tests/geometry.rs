use checkers::board::{Colour, Figure, Square};
use checkers::logic::GameState;

#[test]
fn move_targets() {
    let _game = GameState::create();
    let field1 = Square(3, 0);
    let targets = field1.move_targets();
    assert_eq!(targets, [Square(4, 1), Square(2, 1)]);

    let field2 = Square(5, 5);
    let targets2 = field2.move_targets();
    assert_eq!(
        targets2,
        [Square(6, 4), Square(6, 6), Square(4, 4), Square(4, 6)]
    );
}

#[test]
fn move_targets_corner() {
    assert_eq!(Square(0, 0).move_targets(), [Square(1, 1)]);
    assert_eq!(Square(7, 7).move_targets(), [Square(6, 6)]);
    assert_eq!(Square(0, 7).move_targets(), [Square(1, 6)]);
}

#[test]
fn move_targets_counts() {
    for col in 0..8usize {
        for row in 0..8usize {
            let targets = Square(col, row).move_targets();
            assert!(1 <= targets.len() && targets.len() <= 4);
            if col < 7 && 0 < row && row < 7 {
                assert!(targets.len() >= 2);
            }
            for t in targets {
                assert!(t.0 < 8 && t.1 < 8);
                let dc = if t.0 > col { t.0 - col } else { col - t.0 };
                let dr = if t.1 > row { t.1 - row } else { row - t.1 };
                assert_eq!(dc, 1);
                assert_eq!(dr, 1);
            }
        }
    }
}

#[test]
fn jump_targets_center() {
    assert_eq!(
        Square(5, 5).jump_targets(),
        [Square(7, 3), Square(7, 7), Square(3, 3), Square(3, 7)]
    );
    assert_eq!(
        Square(3, 3).jump_targets(),
        [Square(5, 1), Square(5, 5), Square(1, 1), Square(1, 5)]
    );
}

#[test]
fn jump_targets_corner() {
    assert_eq!(Square(0, 0).jump_targets(), [Square(2, 2)]);
    assert_eq!(Square(7, 0).jump_targets(), [Square(5, 2)]);
}

#[test]
fn jump_targets_counts() {
    for col in 0..8usize {
        for row in 0..8usize {
            let targets = Square(col, row).jump_targets();
            assert!(1 <= targets.len() && targets.len() <= 4);
            if (2 <= col && col <= 5) || (2 <= row && row <= 5) {
                assert!(targets.len() >= 2);
            }
            for t in targets {
                assert!(t.0 < 8 && t.1 < 8);
                let dc = if t.0 > col { t.0 - col } else { col - t.0 };
                let dr = if t.1 > row { t.1 - row } else { row - t.1 };
                assert_eq!(dc, 2);
                assert_eq!(dr, 2);
            }
        }
    }
}

#[test]
fn figure_creation_and_crowning() {
    let piece = Figure::create(Colour::Red);
    assert_eq!(piece.colour, Colour::Red);
    assert!(!piece.crowned);

    let crowned = Figure::crown(piece);
    assert_eq!(crowned.colour, Colour::Red);
    assert!(crowned.crowned);

    // Crowning twice changes nothing.
    assert_eq!(Figure::crown(crowned), crowned);
}
