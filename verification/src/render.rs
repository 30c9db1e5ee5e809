//! The textual picture of a board: an 8x8 grid of two-character cells,
//! `x ` for White, `o ` for Red, blanks for an empty cell, each row
//! between `|` walls, the whole framed by `+`-cornered dash lines.

use vstd::prelude::*;

use crate::board::{Colour, Figure, Square};
use crate::logic::GameState;

verus! {

/// The two characters drawn for one cell.
pub open spec fn glyph(cell: Option<Figure>) -> Seq<char> {
    match cell {
        Some(f) => if f.colour == Colour::White {
            seq!['x', ' ']
        } else {
            seq!['o', ' ']
        },
        None => seq![' ', ' '],
    }
}

/// The drawn cells of board row `r`, for columns 0 up to `c`.
pub open spec fn row_cells(b: Seq<Option<Figure>>, r: int, c: int) -> Seq<char>
    decreases c,
{
    if c <= 0 {
        Seq::empty()
    } else {
        row_cells(b, r, c - 1) + glyph(b[(c - 1) * 8 + r])
    }
}

/// One drawn row: board row `r` between `|` walls, ending the line.
pub open spec fn row_line(b: Seq<Option<Figure>>, r: int) -> Seq<char> {
    seq!['|'] + row_cells(b, r, 8) + seq!['|', '\n']
}

/// The first `r` drawn rows.
pub open spec fn rows_upto(b: Seq<Option<Figure>>, r: int) -> Seq<char>
    decreases r,
{
    if r <= 0 {
        Seq::empty()
    } else {
        rows_upto(b, r - 1) + row_line(b, r - 1)
    }
}

/// The horizontal frame: `+`, two dashes per column, `+`, newline.
pub open spec fn border() -> Seq<char> {
    seq!['+'] + Seq::new(16, |i: int| '-') + seq!['+', '\n']
}

/// The whole picture: frame, the eight rows from row 0 down, frame.
pub open spec fn render_spec(b: Seq<Option<Figure>>) -> Seq<char> {
    border() + rows_upto(b, 8) + border()
}

impl GameState {
    /// Draw the current board as text.
    pub fn render(&self) -> (r: String)
        requires
            self.wf(),
        ensures
            r@ == render_spec(self@.board),
    {
        let mut out = String::new();
        proof {
            reveal_strlit("+----------------+\n");
        }
        out.append("+----------------+\n");
        proof {
            assert(out@ =~= border());
        }
        let mut row: usize = 0;
        while row < 8
            invariant
                self.wf(),
                row <= 8,
                out@ == border() + rows_upto(self@.board, row as int),
            decreases 8 - row,
        {
            proof {
                reveal_strlit("|");
            }
            out.append("|");
            let mut col: usize = 0;
            while col < 8
                invariant
                    self.wf(),
                    row < 8,
                    col <= 8,
                    out@ == border() + rows_upto(self@.board, row as int) + seq!['|'] + row_cells(
                        self@.board,
                        row as int,
                        col as int,
                    ),
                decreases 8 - col,
            {
                proof {
                    reveal_strlit("x ");
                    reveal_strlit("o ");
                    reveal_strlit("  ");
                }
                match self.piece_at(Square(col, row)) {
                    Some(figure) => {
                        match figure.colour {
                            Colour::White => {
                                out.append("x ");
                            },
                            Colour::Red => {
                                out.append("o ");
                            },
                        }
                    },
                    None => {
                        out.append("  ");
                    },
                }
                proof {
                    assert(out@ =~= border() + rows_upto(self@.board, row as int) + seq!['|']
                        + row_cells(self@.board, row as int, col as int + 1));
                }
                col += 1;
            }
            proof {
                reveal_strlit("|\n");
            }
            out.append("|\n");
            proof {
                assert(out@ =~= border() + rows_upto(self@.board, row as int + 1));
            }
            row += 1;
        }
        proof {
            reveal_strlit("+----------------+\n");
        }
        out.append("+----------------+\n");
        proof {
            assert(out@ =~= render_spec(self@.board));
        }
        out
    }
}

} // verus!
