//! The rules engine: the board contents, legal-move generation for the
//! side to move, and validation and application of a chosen move.

use vstd::prelude::*;

use crate::board::{
    crowned_form, in_bounds, is_jump, is_step, jump_targets_spec, lemma_jump_targets_exact,
    lemma_move_targets_exact, lemma_push_contains, move_targets_spec, Colour, Figure, Square,
};

verus! {

/// A candidate or committed transition between two squares.
#[derive(Debug, Copy, Clone, PartialEq, Eq, Structural)]
pub struct Move {
    pub from: Square,
    pub to: Square,
}

/// Why a submitted move was turned down.
#[derive(Debug, Copy, Clone, PartialEq, Eq, Structural)]
pub enum ErrorKind {
    /// The move is absent from the current legal-move set.
    IllegalMove,
    /// The destination square already holds a piece.
    OccupiedDestination,
    /// The source square holds no piece.
    EmptySource,
}

impl ErrorKind {
    /// The user-facing wording for each rejection.
    pub fn message(&self) -> (r: &'static str)
        ensures
            *self == ErrorKind::IllegalMove ==> r@ == "Move not allowed!"@,
            *self == ErrorKind::OccupiedDestination ==> r@
                == "The target field already has a figure on it!"@,
            *self == ErrorKind::EmptySource ==> r@ == "There is no piece on this field!"@,
    {
        match self {
            ErrorKind::IllegalMove => "Move not allowed!",
            ErrorKind::OccupiedDestination => "The target field already has a figure on it!",
            ErrorKind::EmptySource => "There is no piece on this field!",
        }
    }
}

/// The position of a square in the column-major cell sequence.
pub open spec fn sq_index(s: Square) -> int {
    s.0 * 8 + s.1
}

/// The cell of `b` addressed by `s`.
pub open spec fn board_at(b: Seq<Option<Figure>>, s: Square) -> Option<Figure>
    recommends
        b.len() == 64,
        in_bounds(s),
{
    b[sq_index(s)]
}

/// The 8x8 grid of optional pieces, stored column-major.
pub struct GameBoard {
    cells: Vec<Option<Figure>>,
}

impl View for GameBoard {
    type V = Seq<Option<Figure>>;

    closed spec fn view(&self) -> Seq<Option<Figure>> {
        self.cells@
    }
}

impl GameBoard {
    /// The grid really is 8x8.
    pub open spec fn wf(&self) -> bool {
        self@.len() == 64
    }

    /// Read the cell at `s`.
    pub fn at(&self, s: Square) -> (r: Option<Figure>)
        requires
            self.wf(),
            in_bounds(s),
        ensures
            r == board_at(self@, s),
    {
        self.cells[s.0 * 8 + s.1]
    }

    /// Overwrite the cell at `s`.
    fn put(&mut self, s: Square, v: Option<Figure>)
        requires
            old(self).wf(),
            in_bounds(s),
        ensures
            final(self)@ == old(self)@.update(sq_index(s), v),
    {
        self.cells[s.0 * 8 + s.1] = v;
    }
}

/// The other side.
pub open spec fn opposite(c: Colour) -> Colour {
    match c {
        Colour::Red => Colour::White,
        Colour::White => Colour::Red,
    }
}

/// The square halfway between the two ends of a jump.
pub open spec fn midpoint(from: Square, to: Square) -> Square {
    Square(((from.0 + to.0) / 2) as usize, ((from.1 + to.1) / 2) as usize)
}

/// A jump from `from` to `to` is open to `piece`: the square between the
/// two holds a piece of the other colour.  The destination's own
/// occupancy is not examined here; move application guards it.
pub open spec fn spec_legal_jump(
    b: Seq<Option<Figure>>,
    piece: Figure,
    from: Square,
    to: Square,
) -> bool {
    match board_at(b, midpoint(from, to)) {
        Some(p) => p.colour != piece.colour,
        None => false,
    }
}

/// The row direction of a step respects the piece's facing: an
/// un-crowned Red piece only descends the row index, an un-crowned White
/// piece only climbs it, and a crowned piece goes either way.
pub open spec fn step_direction_ok(piece: Figure, from: Square, to: Square) -> bool {
    ||| piece.colour == Colour::Red && to.1 < from.1
    ||| piece.colour == Colour::Red && piece.crowned && to.1 > from.1
    ||| piece.colour == Colour::White && to.1 > from.1
    ||| piece.colour == Colour::White && piece.crowned && to.1 < from.1
}

/// A single step from `from` to `to` is open to `piece`: the destination
/// is free and the direction suits the piece.
pub open spec fn spec_legal_move(
    b: Seq<Option<Figure>>,
    piece: Figure,
    from: Square,
    to: Square,
) -> bool {
    board_at(b, to) is None && step_direction_ok(piece, from, to)
}

/// The one authoritative description of a legal move: what a brute-force
/// scan over every pair of squares would accept for the side `turn`.
pub open spec fn spec_is_legal(b: Seq<Option<Figure>>, turn: Colour, m: Move) -> bool {
    &&& in_bounds(m.from)
    &&& in_bounds(m.to)
    &&& match board_at(b, m.from) {
        Some(p) => {
            &&& p.colour == turn
            &&& ((is_jump(m.from, m.to) && spec_legal_jump(b, p, m.from, m.to)) || (is_step(
                m.from,
                m.to,
            ) && spec_legal_move(b, p, m.from, m.to)))
        },
        None => false,
    }
}

/// The moves kept from the first `n` targets in `ts`, in order: jump
/// candidates pass `spec_legal_jump`, step candidates `spec_legal_move`.
pub open spec fn filtered_moves(
    b: Seq<Option<Figure>>,
    piece: Figure,
    from: Square,
    ts: Seq<Square>,
    n: int,
    jumping: bool,
) -> Seq<Move>
    decreases n,
{
    if n <= 0 {
        Seq::empty()
    } else {
        let rest = filtered_moves(b, piece, from, ts, n - 1, jumping);
        let keep = if jumping {
            spec_legal_jump(b, piece, from, ts[n - 1])
        } else {
            spec_legal_move(b, piece, from, ts[n - 1])
        };
        if keep {
            rest.push(Move { from: from, to: ts[n - 1] })
        } else {
            rest
        }
    }
}

/// All moves of the piece on `field`, jumps before steps, each group in
/// target order; an empty square contributes nothing.
pub open spec fn spec_moves_from_field(b: Seq<Option<Figure>>, field: Square) -> Seq<Move> {
    match board_at(b, field) {
        Some(piece) => filtered_moves(
            b,
            piece,
            field,
            jump_targets_spec(field),
            jump_targets_spec(field).len() as int,
            true,
        ) + filtered_moves(
            b,
            piece,
            field,
            move_targets_spec(field),
            move_targets_spec(field).len() as int,
            false,
        ),
        None => Seq::empty(),
    }
}

/// What the cell `s` contributes to the move set of the side `turn`.
pub open spec fn cell_moves(b: Seq<Option<Figure>>, turn: Colour, s: Square) -> Seq<Move> {
    match board_at(b, s) {
        Some(p) => if p.colour == turn {
            spec_moves_from_field(b, s)
        } else {
            Seq::empty()
        },
        None => Seq::empty(),
    }
}

/// The legal moves contributed by the first `k` cells in column-major
/// scan order.
pub open spec fn legal_moves_upto(b: Seq<Option<Figure>>, turn: Colour, k: int) -> Seq<Move>
    decreases k,
{
    if k <= 0 {
        Seq::empty()
    } else {
        legal_moves_upto(b, turn, k - 1) + cell_moves(
            b,
            turn,
            Square(((k - 1) / 8) as usize, ((k - 1) % 8) as usize),
        )
    }
}

/// The exhaustive legal-move sequence for the side `turn`.
pub open spec fn spec_legal_moves(b: Seq<Option<Figure>>, turn: Colour) -> Seq<Move> {
    legal_moves_upto(b, turn, 64)
}

/// The piece a jump from `from` to `to` would capture: whatever stands on
/// the square halfway between the two.
pub fn jumped_figure(board: &GameBoard, from: &Square, to: &Square) -> (r: Option<Figure>)
    requires
        board.wf(),
        in_bounds(*from),
        in_bounds(*to),
        is_jump(*from, *to),
    ensures
        r == board_at(board@, midpoint(*from, *to)),
{
    let Square(fx, fy) = *from;
    let Square(tx, ty) = *to;
    let x_m: usize = (fx + tx) / 2;
    let y_m: usize = (fy + ty) / 2;
    board.at(Square(x_m, y_m))
}

/// Does `piece` capture something by jumping from `from` to `to`?
pub fn legal_jump(board: &GameBoard, piece: &Figure, from: &Square, to: &Square) -> (r: bool)
    requires
        board.wf(),
        in_bounds(*from),
        in_bounds(*to),
        is_jump(*from, *to),
    ensures
        r == spec_legal_jump(board@, *piece, *from, *to),
{
    match jumped_figure(board, from, to) {
        Some(p) => p.colour != piece.colour,
        None => false,
    }
}

/// May `piece` step from `from` to `to`?
pub fn legal_move(board: &GameBoard, piece: &Figure, from: &Square, to: &Square) -> (r: bool)
    requires
        board.wf(),
        in_bounds(*to),
    ensures
        r == spec_legal_move(board@, *piece, *from, *to),
{
    let Square(_tx, ty) = *to;
    if board.at(*to).is_some() {
        false
    } else {
        let Square(_fx, fy) = *from;
        (ty > fy && piece.colour == Colour::Red && piece.crowned) || (piece.colour == Colour::White
            && ty < fy && piece.crowned) || (ty < fy && piece.colour == Colour::Red) || (ty > fy
            && piece.colour == Colour::White)
    }
}

/// All moves open to the piece standing on `field`, jumps first.
pub fn moves_from_field(board: &GameBoard, field: Square) -> (r: Vec<Move>)
    requires
        board.wf(),
        in_bounds(field),
    ensures
        r@ == spec_moves_from_field(board@, field),
{
    match board.at(field) {
        Some(piece) => {
            let mut moves: Vec<Move> = Vec::new();
            let jt = field.jump_targets();
            let mut i: usize = 0;
            while i < jt.len()
                invariant
                    board.wf(),
                    in_bounds(field),
                    jt@ == jump_targets_spec(field),
                    i <= jt@.len(),
                    moves@ == filtered_moves(board@, piece, field, jt@, i as int, true),
                decreases jt@.len() - i,
            {
                let t = jt[i];
                proof {
                    assert(jt@.contains(jt@[i as int]));
                    lemma_jump_targets_exact(field, jt@[i as int]);
                }
                if legal_jump(board, &piece, &field, &t) {
                    moves.push(Move { from: field, to: t });
                }
                i += 1;
            }
            let mt = field.move_targets();
            let mut j: usize = 0;
            while j < mt.len()
                invariant
                    board.wf(),
                    in_bounds(field),
                    jt@ == jump_targets_spec(field),
                    mt@ == move_targets_spec(field),
                    j <= mt@.len(),
                    moves@ == filtered_moves(
                        board@,
                        piece,
                        field,
                        jt@,
                        jt@.len() as int,
                        true,
                    ) + filtered_moves(board@, piece, field, mt@, j as int, false),
                decreases mt@.len() - j,
            {
                let t = mt[j];
                proof {
                    assert(mt@.contains(mt@[j as int]));
                    lemma_move_targets_exact(field, mt@[j as int]);
                }
                if legal_move(board, &piece, &field, &t) {
                    moves.push(Move { from: field, to: t });
                }
                j += 1;
            }
            proof {
                assert(board_at(board@, field) == Some(piece));
            }
            moves
        },
        None => {
            Vec::new()
        },
    }
}

/// Every legal move for the side `turn`, gathered in column-major scan
/// order over the board.
pub fn get_legal_moves(board: &GameBoard, turn: &Colour) -> (r: Vec<Move>)
    requires
        board.wf(),
    ensures
        r@ == spec_legal_moves(board@, *turn),
{
    let mut moves: Vec<Move> = Vec::new();
    let mut col: usize = 0;
    while col < 8
        invariant
            board.wf(),
            col <= 8,
            moves@ == legal_moves_upto(board@, *turn, (col * 8) as int),
        decreases 8 - col,
    {
        let mut row: usize = 0;
        while row < 8
            invariant
                board.wf(),
                col < 8,
                row <= 8,
                moves@ == legal_moves_upto(board@, *turn, (col * 8 + row) as int),
            decreases 8 - row,
        {
            let here = Square(col, row);
            match board.at(here) {
                Some(piece) => {
                    if piece.colour == *turn {
                        let mut extra = moves_from_field(board, here);
                        moves.append(&mut extra);
                    }
                },
                None => {},
            }
            proof {
                let k: int = col * 8 + row + 1;
                assert((k - 1) / 8 == col && (k - 1) % 8 == row);
                assert(legal_moves_upto(board@, *turn, k) == legal_moves_upto(
                    board@,
                    *turn,
                    k - 1,
                ) + cell_moves(board@, *turn, here));
                assert(moves@ =~= legal_moves_upto(board@, *turn, k));
            }
            row += 1;
        }
        col += 1;
    }
    moves
}

/// Membership in a concatenation splits into the two halves.
proof fn lemma_add_contains<A>(s1: Seq<A>, s2: Seq<A>, x: A)
    ensures
        (s1 + s2).contains(x) <==> (s1.contains(x) || s2.contains(x)),
{
    if (s1 + s2).contains(x) {
        let i = choose|i: int| 0 <= i < (s1 + s2).len() && (s1 + s2)[i] == x;
        if i < s1.len() {
            assert(s1[i] == x);
        } else {
            assert(s2[i - s1.len()] == x);
        }
    }
    if s1.contains(x) {
        let i = choose|i: int| 0 <= i < s1.len() && s1[i] == x;
        assert((s1 + s2)[i] == x);
    }
    if s2.contains(x) {
        let i = choose|i: int| 0 <= i < s2.len() && s2[i] == x;
        assert((s1 + s2)[i + s1.len()] == x);
    }
}

/// `m` goes from `from` to the `i`-th target, and that target passes the
/// jump or step filter.
spec fn kept_at(
    b: Seq<Option<Figure>>,
    piece: Figure,
    from: Square,
    ts: Seq<Square>,
    i: int,
    jumping: bool,
    m: Move,
) -> bool {
    &&& ts[i] == m.to
    &&& m.from == from
    &&& if jumping {
        spec_legal_jump(b, piece, from, ts[i])
    } else {
        spec_legal_move(b, piece, from, ts[i])
    }
}

/// A move appears among the filtered target moves exactly when some
/// target in range produces it.
proof fn lemma_filtered_moves_contains(
    b: Seq<Option<Figure>>,
    piece: Figure,
    from: Square,
    ts: Seq<Square>,
    n: int,
    jumping: bool,
    m: Move,
)
    requires
        0 <= n <= ts.len(),
    ensures
        filtered_moves(b, piece, from, ts, n, jumping).contains(m) <==> exists|i: int|
            0 <= i < n && #[trigger] kept_at(b, piece, from, ts, i, jumping, m),
    decreases n,
{
    if n > 0 {
        let prev = filtered_moves(b, piece, from, ts, n - 1, jumping);
        let keep = if jumping {
            spec_legal_jump(b, piece, from, ts[n - 1])
        } else {
            spec_legal_move(b, piece, from, ts[n - 1])
        };
        let cand = Move { from: from, to: ts[n - 1] };
        lemma_filtered_moves_contains(b, piece, from, ts, n - 1, jumping, m);
        if keep {
            lemma_push_contains(prev, cand, m);
        }
        if filtered_moves(b, piece, from, ts, n, jumping).contains(m) {
            if prev.contains(m) {
                let i = choose|i: int|
                    0 <= i < n - 1 && #[trigger] kept_at(b, piece, from, ts, i, jumping, m);
                assert(kept_at(b, piece, from, ts, i, jumping, m));
            } else {
                assert(m == cand);
                assert(kept_at(b, piece, from, ts, n - 1, jumping, m));
            }
        }
        if exists|i: int| 0 <= i < n && #[trigger] kept_at(b, piece, from, ts, i, jumping, m) {
            let i = choose|i: int|
                0 <= i < n && #[trigger] kept_at(b, piece, from, ts, i, jumping, m);
            if i < n - 1 {
                assert(prev.contains(m));
            } else {
                assert(m == cand);
                assert(filtered_moves(b, piece, from, ts, n, jumping).contains(m));
            }
        }
    }
}

/// A move appears among a square's moves exactly when a piece stands
/// there and the move is one of its open jumps or steps.
proof fn lemma_moves_from_field_contains(b: Seq<Option<Figure>>, field: Square, m: Move)
    requires
        b.len() == 64,
        in_bounds(field),
    ensures
        spec_moves_from_field(b, field).contains(m) <==> (m.from == field && in_bounds(m.to)
            && match board_at(b, field) {
            Some(p) => (is_jump(field, m.to) && spec_legal_jump(b, p, field, m.to)) || (is_step(
                field,
                m.to,
            ) && spec_legal_move(b, p, field, m.to)),
            None => false,
        }),
{
    match board_at(b, field) {
        Some(piece) => {
            let jt = jump_targets_spec(field);
            let mt = move_targets_spec(field);
            let jumps = filtered_moves(b, piece, field, jt, jt.len() as int, true);
            let steps = filtered_moves(b, piece, field, mt, mt.len() as int, false);
            lemma_add_contains(jumps, steps, m);
            lemma_filtered_moves_contains(b, piece, field, jt, jt.len() as int, true, m);
            lemma_filtered_moves_contains(b, piece, field, mt, mt.len() as int, false, m);
            lemma_jump_targets_exact(field, m.to);
            lemma_move_targets_exact(field, m.to);
            if jumps.contains(m) {
                let i = choose|i: int|
                    0 <= i < jt.len() && #[trigger] kept_at(b, piece, field, jt, i, true, m);
                assert(jt.contains(jt[i]));
            }
            if steps.contains(m) {
                let i = choose|i: int|
                    0 <= i < mt.len() && #[trigger] kept_at(b, piece, field, mt, i, false, m);
                assert(mt.contains(mt[i]));
            }
            if m.from == field && in_bounds(m.to) && is_jump(field, m.to) && spec_legal_jump(
                b,
                piece,
                field,
                m.to,
            ) {
                assert(jt.contains(m.to));
                let i = choose|i: int| 0 <= i < jt.len() && jt[i] == m.to;
                assert(kept_at(b, piece, field, jt, i, true, m));
            }
            if m.from == field && in_bounds(m.to) && is_step(field, m.to) && spec_legal_move(
                b,
                piece,
                field,
                m.to,
            ) {
                assert(mt.contains(m.to));
                let i = choose|i: int| 0 <= i < mt.len() && mt[i] == m.to;
                assert(kept_at(b, piece, field, mt, i, false, m));
            }
        },
        None => {
            assert(!spec_moves_from_field(b, field).contains(m));
        },
    }
}

/// A move appears among the first `k` cells' contributions exactly when
/// some scanned cell contributes it.
proof fn lemma_legal_moves_upto_contains(b: Seq<Option<Figure>>, turn: Colour, k: int, m: Move)
    requires
        b.len() == 64,
        0 <= k <= 64,
    ensures
        legal_moves_upto(b, turn, k).contains(m) <==> exists|j: int|
            0 <= j < k && #[trigger] cell_moves(
                b,
                turn,
                Square((j / 8) as usize, (j % 8) as usize),
            ).contains(m),
    decreases k,
{
    if k > 0 {
        let here = Square(((k - 1) / 8) as usize, ((k - 1) % 8) as usize);
        lemma_legal_moves_upto_contains(b, turn, k - 1, m);
        lemma_add_contains(legal_moves_upto(b, turn, k - 1), cell_moves(b, turn, here), m);
        if legal_moves_upto(b, turn, k).contains(m) {
            if legal_moves_upto(b, turn, k - 1).contains(m) {
                let j = choose|j: int|
                    0 <= j < k - 1 && #[trigger] cell_moves(
                        b,
                        turn,
                        Square((j / 8) as usize, (j % 8) as usize),
                    ).contains(m);
                assert(cell_moves(b, turn, Square((j / 8) as usize, (j % 8) as usize)).contains(m));
            } else {
                assert(cell_moves(
                    b,
                    turn,
                    Square(((k - 1) / 8) as usize, ((k - 1) % 8) as usize),
                ).contains(m));
            }
        }
        if exists|j: int|
            0 <= j < k && #[trigger] cell_moves(
                b,
                turn,
                Square((j / 8) as usize, (j % 8) as usize),
            ).contains(m) {
            let j = choose|j: int|
                0 <= j < k && #[trigger] cell_moves(
                    b,
                    turn,
                    Square((j / 8) as usize, (j % 8) as usize),
                ).contains(m);
            if j < k - 1 {
                assert(legal_moves_upto(b, turn, k - 1).contains(m));
            } else {
                assert(cell_moves(b, turn, here).contains(m));
            }
        }
    }
}

/// The generated move list is exact: it holds a move if and only if a
/// brute-force scan over every pair of squares would accept it.
pub proof fn lemma_legal_moves_exact(b: Seq<Option<Figure>>, turn: Colour, m: Move)
    requires
        b.len() == 64,
    ensures
        spec_legal_moves(b, turn).contains(m) <==> spec_is_legal(b, turn, m),
{
    lemma_legal_moves_upto_contains(b, turn, 64, m);
    if spec_legal_moves(b, turn).contains(m) {
        let j = choose|j: int|
            0 <= j < 64 && #[trigger] cell_moves(
                b,
                turn,
                Square((j / 8) as usize, (j % 8) as usize),
            ).contains(m);
        let here = Square((j / 8) as usize, (j % 8) as usize);
        assert(in_bounds(here));
        lemma_moves_from_field_contains(b, here, m);
        assert(spec_is_legal(b, turn, m));
    }
    if spec_is_legal(b, turn, m) {
        let j: int = sq_index(m.from);
        assert(0 <= j < 64);
        assert(j / 8 == m.from.0 && j % 8 == m.from.1);
        assert(Square((j / 8) as usize, (j % 8) as usize) == m.from);
        lemma_moves_from_field_contains(b, m.from, m);
        assert(cell_moves(b, turn, Square((j / 8) as usize, (j % 8) as usize)).contains(m));
    }
}

/// A legal step move empties its source, puts the moved piece on its
/// destination, and leaves every other cell exactly as it was.
pub proof fn lemma_step_move_effect(b: Seq<Option<Figure>>, turn: Colour, m: Move)
    requires
        b.len() == 64,
        spec_is_legal(b, turn, m),
        is_step(m.from, m.to),
    ensures
        board_at(apply_move_board(b, m), m.from) is None,
        board_at(apply_move_board(b, m), m.to) == Some(placed_piece(b, m)),
        forall|s: Square|
            in_bounds(s) && s != m.from && s != m.to ==> board_at(apply_move_board(b, m), s)
                == board_at(b, s),
{
    assert(!is_jump(m.from, m.to));
}

/// A legal jump move captures: the square halfway between source and
/// destination held a piece of the other colour and is cleared, the
/// source empties, the moved piece lands exactly two columns and two
/// rows away, and no other cell changes.
pub proof fn lemma_jump_move_effect(b: Seq<Option<Figure>>, turn: Colour, m: Move)
    requires
        b.len() == 64,
        spec_is_legal(b, turn, m),
        is_jump(m.from, m.to),
    ensures
        board_at(b, midpoint(m.from, m.to)) is Some,
        piece_on(b, midpoint(m.from, m.to)).colour != piece_on(b, m.from).colour,
        board_at(apply_move_board(b, m), midpoint(m.from, m.to)) is None,
        board_at(apply_move_board(b, m), m.from) is None,
        board_at(apply_move_board(b, m), m.to) == Some(placed_piece(b, m)),
        m.to.0 == m.from.0 + 2 || m.to.0 + 2 == m.from.0,
        m.to.1 == m.from.1 + 2 || m.to.1 + 2 == m.from.1,
        forall|s: Square|
            in_bounds(s) && s != m.from && s != m.to && s != midpoint(m.from, m.to) ==> board_at(
                apply_move_board(b, m),
                s,
            ) == board_at(b, s),
{
    assert(!is_step(m.from, m.to));
    assert(in_bounds(midpoint(m.from, m.to)));
}

/// Crowning at the moment of landing: the piece that arrives keeps its
/// colour, gains the crown exactly when it was already crowned or its
/// destination is its back rank, and so never loses a crown it had.
pub proof fn lemma_crowning(b: Seq<Option<Figure>>, m: Move)
    ensures
        placed_piece(b, m).colour == piece_on(b, m.from).colour,
        placed_piece(b, m).crowned == (piece_on(b, m.from).crowned || back_rank(
            piece_on(b, m.from).colour,
            m.to,
        )),
{
}

/// The cell of the standard starting layout at `s`: White fills the
/// three rows nearest row 0 and Red the three nearest row 7, each side
/// on the cells whose column and row sum to an even number.
pub open spec fn initial_cell(s: Square) -> Option<Figure> {
    if (s.0 + s.1) % 2 == 0 && s.1 < 3 {
        Some(Figure { colour: Colour::White, crowned: false })
    } else if (s.0 + s.1) % 2 == 0 && s.1 >= 5 {
        Some(Figure { colour: Colour::Red, crowned: false })
    } else {
        None
    }
}

/// The standard starting layout as a column-major cell sequence.
pub open spec fn initial_board() -> Seq<Option<Figure>> {
    Seq::new(64, |k: int| initial_cell(Square((k / 8) as usize, (k % 8) as usize)))
}

/// Reading the starting layout cell by cell gives `initial_cell`.
pub proof fn lemma_initial_board_at(s: Square)
    requires
        in_bounds(s),
    ensures
        board_at(initial_board(), s) == initial_cell(s),
{
    assert(sq_index(s) / 8 == s.0 && sq_index(s) % 8 == s.1);
}

/// From the standard starting layout with White to move, every legal
/// move is a single step of a White piece one row up into a free cell:
/// no jump is available, because nothing Red stands within reach.
pub proof fn lemma_initial_moves_are_steps(m: Move)
    requires
        spec_is_legal(initial_board(), Colour::White, m),
    ensures
        is_step(m.from, m.to),
        m.to.1 == m.from.1 + 1,
        board_at(initial_board(), m.from) == Some(Figure { colour: Colour::White, crowned: false }),
        board_at(initial_board(), m.to) is None,
{
    lemma_initial_board_at(m.from);
    lemma_initial_board_at(m.to);
    if is_jump(m.from, m.to) {
        let mid = midpoint(m.from, m.to);
        assert(in_bounds(mid));
        lemma_initial_board_at(mid);
        assert(mid.1 <= m.from.1 + 1);
        assert(!spec_legal_jump(initial_board(), piece_on(initial_board(), m.from), m.from, m.to));
    }
}

/// Landing on `square` crowns a piece of this colour: row 0 crowns Red,
/// row 7 crowns White.
pub open spec fn back_rank(colour: Colour, square: Square) -> bool {
    (square.1 == 0 && colour == Colour::Red) || (square.1 == 7 && colour == Colour::White)
}

/// Does `piece` gain its crown by landing on `square`?
pub fn get_crown(piece: Figure, square: Square) -> (r: bool)
    ensures
        r == back_rank(piece.colour, square),
{
    (square.1 == 0 && piece.colour == Colour::Red) || (square.1 == 7 && piece.colour
        == Colour::White)
}

/// The piece standing on `s`, for specs that already know the square is
/// occupied.
pub open spec fn piece_on(b: Seq<Option<Figure>>, s: Square) -> Figure
    recommends
        board_at(b, s) is Some,
{
    board_at(b, s)->Some_0
}

/// What lands on the destination of `m`: the source piece, crowned if
/// the destination is its back rank.
pub open spec fn placed_piece(b: Seq<Option<Figure>>, m: Move) -> Figure {
    let p = piece_on(b, m.from);
    if back_rank(p.colour, m.to) {
        crowned_form(p)
    } else {
        p
    }
}

/// The board after the move `m` is carried out: the destination takes
/// the piece, crowned if it reaches its back rank, the source empties,
/// and a jump also clears the square between the two.
pub open spec fn apply_move_board(b: Seq<Option<Figure>>, m: Move) -> Seq<Option<Figure>> {
    let moved = b.update(sq_index(m.to), Some(placed_piece(b, m))).update(sq_index(m.from), None);
    if is_jump(m.from, m.to) {
        moved.update(sq_index(midpoint(m.from, m.to)), None)
    } else {
        moved
    }
}

/// Is `m` among the listed moves?
fn contains_move(list: &Vec<Move>, m: &Move) -> (r: bool)
    ensures
        r == list@.contains(*m),
{
    let mut i: usize = 0;
    while i < list.len()
        invariant
            i <= list@.len(),
            forall|k: int| 0 <= k < i ==> list@[k] != *m,
        decreases list@.len() - i,
    {
        if list[i] == *m {
            proof {
                assert(list@.contains(*m));
            }
            return true;
        }
        i += 1;
    }
    false
}

/// The spec-level image of a game: the cells, the side to move, the move
/// counter, and the chronological log of applied moves.
pub struct GameView {
    pub board: Seq<Option<Figure>>,
    pub turn: Colour,
    pub current_move: u16,
    pub move_log: Seq<Move>,
}

/// A running game: the board, whose turn it is, how many moves have been
/// applied, and the log of those moves.
pub struct GameState {
    board: GameBoard,
    turn: Colour,
    current_move: u16,
    move_log: Vec<Move>,
}

impl View for GameState {
    type V = GameView;

    closed spec fn view(&self) -> GameView {
        GameView {
            board: self.board@,
            turn: self.turn,
            current_move: self.current_move,
            move_log: self.move_log@,
        }
    }
}

impl GameState {
    /// The grid is 8x8 and the counter agrees with the log: as many
    /// moves counted as were ever applied.
    pub open spec fn wf(&self) -> bool {
        self@.board.len() == 64 && self@.current_move == self@.move_log.len()
    }

    /// A fresh game: the standard starting layout, White to move,
    /// nothing counted and nothing logged.
    pub fn create() -> (r: GameState)
        ensures
            r.wf(),
            r@.board == initial_board(),
            r@.turn == Colour::White,
            r@.current_move == 0,
            r@.move_log == Seq::<Move>::empty(),
    {
        let mut game = GameState {
            board: GameBoard { cells: Vec::new() },
            current_move: 0,
            turn: Colour::White,
            move_log: Vec::new(),
        };
        game.populate_field();
        game
    }

    /// Fill the empty grid with the standard starting layout.
    fn populate_field(&mut self)
        requires
            old(self)@.board.len() == 0,
        ensures
            final(self)@.board == initial_board(),
            final(self)@.turn == old(self)@.turn,
            final(self)@.current_move == old(self)@.current_move,
            final(self)@.move_log == old(self)@.move_log,
    {
        let mut cells: Vec<Option<Figure>> = Vec::new();
        let mut col: usize = 0;
        while col < 8
            invariant
                col <= 8,
                cells@.len() == col * 8,
                forall|k: int| 0 <= k < col * 8 ==> cells@[k] == initial_board()[k],
            decreases 8 - col,
        {
            let mut row: usize = 0;
            while row < 8
                invariant
                    col < 8,
                    row <= 8,
                    cells@.len() == col * 8 + row,
                    forall|k: int| 0 <= k < col * 8 + row ==> cells@[k] == initial_board()[k],
                decreases 8 - row,
            {
                let parity_even = (col + row) % 2 == 0;
                let cell: Option<Figure> = if parity_even && row < 3 {
                    Some(Figure::create(Colour::White))
                } else if parity_even && row >= 5 {
                    Some(Figure::create(Colour::Red))
                } else {
                    None
                };
                cells.push(cell);
                proof {
                    let k: int = col * 8 + row;
                    assert(k / 8 == col && k % 8 == row);
                    assert(cells@[k] == initial_board()[k]);
                }
                row += 1;
            }
            col += 1;
        }
        self.board = GameBoard { cells };
        proof {
            assert(self@.board =~= initial_board());
        }
    }

    /// Whose turn it is.
    pub fn turn(&self) -> (r: Colour)
        ensures
            r == self@.turn,
    {
        self.turn
    }

    /// How many moves have been applied so far.
    pub fn current_move(&self) -> (r: u16)
        ensures
            r == self@.current_move,
    {
        self.current_move
    }

    /// The applied moves, oldest first.
    pub fn move_log(&self) -> (r: &Vec<Move>)
        ensures
            r@ == self@.move_log,
    {
        &self.move_log
    }

    /// The playing surface itself.
    pub fn board(&self) -> (r: &GameBoard)
        ensures
            r@ == self@.board,
    {
        &self.board
    }

    /// The piece standing on `s`, if any.
    pub fn piece_at(&self, s: Square) -> (r: Option<Figure>)
        requires
            self.wf(),
            in_bounds(s),
        ensures
            r == board_at(self@.board, s),
    {
        self.board.at(s)
    }

    /// Every legal move open to the side whose turn it is.
    pub fn legal_moves(&self) -> (r: Vec<Move>)
        requires
            self.wf(),
        ensures
            r@ == spec_legal_moves(self@.board, self@.turn),
    {
        get_legal_moves(&self.board, &self.turn)
    }

    /// Validate `game_move` against the current legal-move set and, once
    /// it passes every guard, carry it out: capture on a jump, crown on
    /// the back rank, advance the counter by one, flip the turn, and log
    /// the move.  A rejected move leaves the game exactly as it was.
    pub fn handle_move(&mut self, game_move: Move) -> (res: Result<(), ErrorKind>)
        requires
            old(self).wf(),
            old(self)@.current_move < 65535,
        ensures
            final(self).wf(),
            ({
                let b0 = old(self)@.board;
                let legal = spec_is_legal(b0, old(self)@.turn, game_move);
                let dest_free = board_at(b0, game_move.to) is None;
                &&& (res is Ok <==> legal && dest_free)
                &&& (res == Result::<(), ErrorKind>::Err(ErrorKind::IllegalMove) <==> !legal)
                &&& (res == Result::<(), ErrorKind>::Err(ErrorKind::OccupiedDestination) <==> legal
                    && !dest_free)
                &&& res != Result::<(), ErrorKind>::Err(ErrorKind::EmptySource)
                &&& (res is Err ==> final(self)@ == old(self)@)
                &&& (res is Ok ==> {
                    &&& final(self)@.board == apply_move_board(b0, game_move)
                    &&& final(self)@.turn == opposite(old(self)@.turn)
                    &&& final(self)@.current_move == old(self)@.current_move + 1
                    &&& final(self)@.move_log == old(self)@.move_log.push(game_move)
                })
            }),
    {
        let allowed_moves = get_legal_moves(&self.board, &self.turn);
        proof {
            lemma_legal_moves_exact(self@.board, self@.turn, game_move);
        }
        if !contains_move(&allowed_moves, &game_move) {
            return Err(ErrorKind::IllegalMove);
        }
        let from = game_move.from;
        let to = game_move.to;
        if self.board.at(to).is_some() {
            return Err(ErrorKind::OccupiedDestination);
        }
        let piece = match self.board.at(from) {
            Some(piece) => piece,
            None => {
                return Err(ErrorKind::EmptySource);
            },
        };
        let ghost b0 = self@.board;
        let Square(fx, fy) = from;
        let Square(tx, ty) = to;
        if fy + 2 == ty || ty + 2 == fy {
            let x_m: usize = (fx + tx) / 2;
            let y_m: usize = (fy + ty) / 2;
            self.board.put(Square(x_m, y_m), None);
        }
        let placed = if get_crown(piece, to) {
            Figure::crown(piece)
        } else {
            piece
        };
        self.board.put(to, Some(placed));
        self.board.put(from, None);
        proof {
            assert(self@.board =~= apply_move_board(b0, game_move));
        }
        self.current_move = self.current_move + 1;
        if self.turn == Colour::White {
            self.turn = Colour::Red;
        } else {
            self.turn = Colour::White;
        }
        self.move_log.push(game_move);
        Ok(())
    }
}

} // verus!
