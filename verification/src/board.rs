//! Pieces, coordinates, and the board geometry: the candidate squares a
//! piece could move or jump to from a given square, independent of what
//! else stands on the board.

use vstd::prelude::*;

verus! {

/// The two sides of the game; also the owner of a piece.
#[derive(Debug, Copy, Clone, PartialEq, Eq, Structural)]
pub enum Colour {
    Red,
    White,
}

/// A piece: its owner and whether it has been crowned.
#[derive(Debug, Copy, Clone, PartialEq, Eq, Structural)]
pub struct Figure {
    pub colour: Colour,
    pub crowned: bool,
}

/// The same piece wearing a crown.
pub open spec fn crowned_form(piece: Figure) -> Figure {
    Figure { colour: piece.colour, crowned: true }
}

impl Figure {
    /// A freshly created piece is never crowned.
    pub fn create(colour: Colour) -> (r: Figure)
        ensures
            r == (Figure { colour, crowned: false }),
    {
        Figure { colour, crowned: false }
    }

    /// Crowning keeps the owner and sets the crown, whether or not the
    /// piece already wore one.
    pub fn crown(piece: Figure) -> (r: Figure)
        ensures
            r == crowned_form(piece),
    {
        Figure {
            colour: piece.colour,
            crowned: true,
        }
    }
}

/// A board coordinate: column, then row, each meaningful in [0, 8).
#[derive(Debug, Copy, Clone, PartialEq, Eq, Structural)]
pub struct Square(pub usize, pub usize);

/// The square lies on the 8x8 board.
pub open spec fn in_bounds(s: Square) -> bool {
    s.0 < 8 && s.1 < 8
}

/// `t` is one diagonal step away from `s`.
pub open spec fn is_step(s: Square, t: Square) -> bool {
    &&& (t.0 == s.0 + 1 || t.0 + 1 == s.0)
    &&& (t.1 == s.1 + 1 || t.1 + 1 == s.1)
}

/// `t` is exactly two columns and two rows away from `s`.
pub open spec fn is_jump(s: Square, t: Square) -> bool {
    &&& (t.0 == s.0 + 2 || t.0 + 2 == s.0)
    &&& (t.1 == s.1 + 2 || t.1 + 2 == s.1)
}

/// The single-step destinations from `s`, in the fixed order
/// (+1,-1), (+1,+1), (-1,-1), (-1,+1), keeping only squares on the board.
pub open spec fn move_targets_spec(s: Square) -> Seq<Square> {
    let t0 = Seq::<Square>::empty();
    let t1 = if s.0 < 7 && s.1 > 0 {
        t0.push(Square((s.0 + 1) as usize, (s.1 - 1) as usize))
    } else {
        t0
    };
    let t2 = if s.0 < 7 && s.1 < 7 {
        t1.push(Square((s.0 + 1) as usize, (s.1 + 1) as usize))
    } else {
        t1
    };
    let t3 = if s.0 > 0 && s.1 > 0 {
        t2.push(Square((s.0 - 1) as usize, (s.1 - 1) as usize))
    } else {
        t2
    };
    if s.0 > 0 && s.1 < 7 {
        t3.push(Square((s.0 - 1) as usize, (s.1 + 1) as usize))
    } else {
        t3
    }
}

/// The jump destinations from `s`, in the fixed order
/// (+2,-2), (+2,+2), (-2,-2), (-2,+2), keeping only squares on the board.
pub open spec fn jump_targets_spec(s: Square) -> Seq<Square> {
    let t0 = Seq::<Square>::empty();
    let t1 = if s.0 < 6 && s.1 > 1 {
        t0.push(Square((s.0 + 2) as usize, (s.1 - 2) as usize))
    } else {
        t0
    };
    let t2 = if s.0 < 6 && s.1 < 6 {
        t1.push(Square((s.0 + 2) as usize, (s.1 + 2) as usize))
    } else {
        t1
    };
    let t3 = if s.0 > 1 && s.1 > 1 {
        t2.push(Square((s.0 - 2) as usize, (s.1 - 2) as usize))
    } else {
        t2
    };
    if s.0 > 1 && s.1 < 6 {
        t3.push(Square((s.0 - 2) as usize, (s.1 + 2) as usize))
    } else {
        t3
    }
}

impl Square {
    /// The squares a jump from here could land on, bounds-filtered.
    pub fn jump_targets(&self) -> (r: Vec<Square>)
        ensures
            r@ == jump_targets_spec(*self),
    {
        let mut targets: Vec<Square> = Vec::new();
        let Square(x, y) = *self;
        if x < 6 && y > 1 {
            targets.push(Square(x + 2, y - 2));
        }
        if x < 6 && y < 6 {
            targets.push(Square(x + 2, y + 2));
        }
        if x > 1 && y > 1 {
            targets.push(Square(x - 2, y - 2));
        }
        if x > 1 && y < 6 {
            targets.push(Square(x - 2, y + 2));
        }
        proof {
            assert(targets@ =~= jump_targets_spec(*self));
        }
        targets
    }

    /// The squares one diagonal step from here, bounds-filtered.
    pub fn move_targets(&self) -> (r: Vec<Square>)
        ensures
            r@ == move_targets_spec(*self),
    {
        let mut targets: Vec<Square> = Vec::new();
        let Square(x, y) = *self;
        if x < 7 && y > 0 {
            targets.push(Square(x + 1, y - 1));
        }
        if x < 7 && y < 7 {
            targets.push(Square(x + 1, y + 1));
        }
        if x > 0 && y > 0 {
            targets.push(Square(x - 1, y - 1));
        }
        if x > 0 && y < 7 {
            targets.push(Square(x - 1, y + 1));
        }
        proof {
            assert(targets@ =~= move_targets_spec(*self));
        }
        targets
    }
}

/// Membership in a pushed sequence splits into the old members and the
/// new element.
pub(crate) proof fn lemma_push_contains<A>(s: Seq<A>, a: A, x: A)
    ensures
        s.push(a).contains(x) <==> (s.contains(x) || x == a),
{
    if x == a {
        assert(s.push(a)[s.len() as int] == a);
    }
    if s.contains(x) {
        let i = choose|i: int| 0 <= i < s.len() && s[i] == x;
        assert(s.push(a)[i] == x);
    }
    if s.push(a).contains(x) {
        let i = choose|i: int| 0 <= i < s.push(a).len() && s.push(a)[i] == x;
        if i < s.len() {
            assert(s[i] == x);
        }
    }
}

/// A square is a single-step target exactly when it is an in-bounds
/// diagonal neighbour: the step targets are sound and complete.
pub proof fn lemma_move_targets_exact(s: Square, t: Square)
    requires
        in_bounds(s),
    ensures
        move_targets_spec(s).contains(t) <==> (in_bounds(t) && is_step(s, t)),
{
    let t0 = Seq::<Square>::empty();
    let t1 = if s.0 < 7 && s.1 > 0 {
        t0.push(Square((s.0 + 1) as usize, (s.1 - 1) as usize))
    } else {
        t0
    };
    let t2 = if s.0 < 7 && s.1 < 7 {
        t1.push(Square((s.0 + 1) as usize, (s.1 + 1) as usize))
    } else {
        t1
    };
    let t3 = if s.0 > 0 && s.1 > 0 {
        t2.push(Square((s.0 - 1) as usize, (s.1 - 1) as usize))
    } else {
        t2
    };
    assert(!t0.contains(t));
    if s.0 < 7 && s.1 > 0 {
        lemma_push_contains(t0, Square((s.0 + 1) as usize, (s.1 - 1) as usize), t);
    }
    if s.0 < 7 && s.1 < 7 {
        lemma_push_contains(t1, Square((s.0 + 1) as usize, (s.1 + 1) as usize), t);
    }
    if s.0 > 0 && s.1 > 0 {
        lemma_push_contains(t2, Square((s.0 - 1) as usize, (s.1 - 1) as usize), t);
    }
    if s.0 > 0 && s.1 < 7 {
        lemma_push_contains(t3, Square((s.0 - 1) as usize, (s.1 + 1) as usize), t);
    }
}

/// A square is a jump target exactly when it is in bounds and two columns
/// and two rows away: the jump targets are sound and complete.
pub proof fn lemma_jump_targets_exact(s: Square, t: Square)
    requires
        in_bounds(s),
    ensures
        jump_targets_spec(s).contains(t) <==> (in_bounds(t) && is_jump(s, t)),
{
    let t0 = Seq::<Square>::empty();
    let t1 = if s.0 < 6 && s.1 > 1 {
        t0.push(Square((s.0 + 2) as usize, (s.1 - 2) as usize))
    } else {
        t0
    };
    let t2 = if s.0 < 6 && s.1 < 6 {
        t1.push(Square((s.0 + 2) as usize, (s.1 + 2) as usize))
    } else {
        t1
    };
    let t3 = if s.0 > 1 && s.1 > 1 {
        t2.push(Square((s.0 - 2) as usize, (s.1 - 2) as usize))
    } else {
        t2
    };
    assert(!t0.contains(t));
    if s.0 < 6 && s.1 > 1 {
        lemma_push_contains(t0, Square((s.0 + 2) as usize, (s.1 - 2) as usize), t);
    }
    if s.0 < 6 && s.1 < 6 {
        lemma_push_contains(t1, Square((s.0 + 2) as usize, (s.1 + 2) as usize), t);
    }
    if s.0 > 1 && s.1 > 1 {
        lemma_push_contains(t2, Square((s.0 - 2) as usize, (s.1 - 2) as usize), t);
    }
    if s.0 > 1 && s.1 < 6 {
        lemma_push_contains(t3, Square((s.0 - 2) as usize, (s.1 + 2) as usize), t);
    }
}

/// Every square on the board has between one and four step targets; away
/// from the left, top and bottom edges (column < 7, row strictly inside
/// (0,7)) there are at least two.
pub proof fn lemma_move_targets_count(s: Square)
    requires
        in_bounds(s),
    ensures
        1 <= move_targets_spec(s).len() <= 4,
        s.0 < 7 && 0 < s.1 < 7 ==> 2 <= move_targets_spec(s).len(),
{
}

/// Every square on the board has between one and four jump targets; a
/// square not wedged into a corner region (some coordinate in [2,5])
/// has at least two.
pub proof fn lemma_jump_targets_count(s: Square)
    requires
        in_bounds(s),
    ensures
        1 <= jump_targets_spec(s).len() <= 4,
        (2 <= s.0 <= 5 || 2 <= s.1 <= 5) ==> 2 <= jump_targets_spec(s).len(),
{
}

/// Crowning is idempotent and one-way: crowning a crowned piece changes
/// nothing, and a crowned piece is already its own crowned form.
pub proof fn lemma_crown_idempotent(piece: Figure)
    ensures
        crowned_form(crowned_form(piece)) == crowned_form(piece),
        piece.crowned ==> piece == crowned_form(piece),
{
}

} // verus!
