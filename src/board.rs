//! The playfield: a grid of optional colours, row 0 at the top, with the
//! placement rule, locking and line clearing stated over its cells.

use vstd::prelude::*;
use crate::shapes::{Color, GRID_WIDTH, GRID_HEIGHT, shape_view, view_cell};
use crate::piece::{Tetromino, covers};

verus! {

/// The cells of a board, indexed `[row][column]`.
pub type Cells = Seq<Seq<Option<Color>>>;

/// The cells held by a grid of rows.
pub open spec fn grid_view(g: Seq<Vec<Option<Color>>>) -> Cells {
    g.map_values(|row: Vec<Option<Color>>| row@)
}

/// A board of `GRID_HEIGHT` rows of `GRID_WIDTH` cells.
pub open spec fn is_board(b: Cells) -> bool {
    &&& b.len() == GRID_HEIGHT
    &&& forall|r: int| 0 <= r < b.len() ==> (#[trigger] b[r]).len() == GRID_WIDTH
}

pub open spec fn empty_row() -> Seq<Option<Color>> {
    Seq::new(GRID_WIDTH as nat, |c: int| None)
}

pub open spec fn empty_board() -> Cells {
    Seq::new(GRID_HEIGHT as nat, |r: int| empty_row())
}

/// Whether cell (row `r`, column `c`) holds a locked colour; cells off the
/// board, above it in particular, never do.
pub open spec fn occupied(b: Cells, r: int, c: int) -> bool {
    0 <= r < GRID_HEIGHT && 0 <= c < GRID_WIDTH && b[r][c] is Some
}

/// Whether a matrix with its corner at column `x`, row `y` may stand on the
/// board: each occupied cell lies within the side walls, above the floor,
/// and on no locked cell. Cells above the board are free.
pub open spec fn fits_at(b: Cells, m: Seq<Seq<bool>>, x: int, y: int) -> bool {
    forall|i: int, j: int| #[trigger] view_cell(m, i, j) ==> {
        &&& 0 <= x + j < GRID_WIDTH
        &&& y + i < GRID_HEIGHT
        &&& !occupied(b, y + i, x + j)
    }
}

pub open spec fn fits(b: Cells, p: Tetromino) -> bool {
    fits_at(b, shape_view(p.shape), p.x as int, p.y as int)
}

/// The board with the piece's colour written into every board cell it covers.
pub open spec fn locked(b: Cells, p: Tetromino) -> Cells {
    Seq::new(
        GRID_HEIGHT as nat,
        |r: int| Seq::new(GRID_WIDTH as nat, |c: int| if covers(p, r, c) { Some(p.color) } else { b[r][c] }),
    )
}

/// A row in which every cell is occupied.
pub open spec fn row_full(row: Seq<Option<Color>>) -> bool {
    forall|c: int| 0 <= c < row.len() ==> (#[trigger] row[c]) is Some
}

/// Whether a row stays when full rows are cleared.
pub open spec fn row_stays() -> spec_fn(Seq<Option<Color>>) -> bool {
    |row: Seq<Option<Color>>| !row_full(row)
}

/// The rows that are not full, top to bottom.
pub open spec fn kept_rows(b: Cells) -> Cells {
    b.filter(row_stays())
}

/// Taking one more row, from above, into the rows that stay.
pub proof fn lemma_kept_rows_extend(b: Cells, m: int)
    requires
        0 < m <= b.len(),
    ensures
        kept_rows(b.subrange(m - 1, b.len() as int)) == if row_full(b[m - 1]) {
            kept_rows(b.subrange(m, b.len() as int))
        } else {
            seq![b[m - 1]] + kept_rows(b.subrange(m, b.len() as int))
        },
{
    let tail = b.subrange(m, b.len() as int);
    assert(b.subrange(m - 1, b.len() as int) =~= seq![b[m - 1]] + tail);
    tail.lemma_filter_prepend(b[m - 1], row_stays());
}

/// The number of full rows.
pub open spec fn full_rows(b: Cells) -> nat {
    (b.len() - kept_rows(b).len()) as nat
}

/// The board after every full row is removed and the rows above drop into
/// the gap: empty rows on top, then the rows that were not full, in order.
pub open spec fn cleared(b: Cells) -> Cells {
    Seq::new(full_rows(b), |r: int| empty_row()) + kept_rows(b)
}

/// A row of empty cells.
pub fn new_empty_row() -> (row: Vec<Option<Color>>)
    ensures
        row@ == empty_row(),
{
    let mut row: Vec<Option<Color>> = Vec::new();
    let mut c: usize = 0;
    while c < GRID_WIDTH
        invariant
            c <= GRID_WIDTH,
            row@ == Seq::new(c as nat, |k: int| None::<Color>),
        decreases GRID_WIDTH - c,
    {
        row.push(None);
        c = c + 1;
        assert(row@ =~= Seq::new(c as nat, |k: int| None::<Color>));
    }
    assert(row@ =~= empty_row());
    row
}

/// A grid of empty rows.
pub fn new_empty_grid() -> (g: Vec<Vec<Option<Color>>>)
    ensures
        grid_view(g@) == empty_board(),
{
    let mut g: Vec<Vec<Option<Color>>> = Vec::new();
    let mut r: usize = 0;
    while r < GRID_HEIGHT
        invariant
            r <= GRID_HEIGHT,
            g@.len() == r,
            grid_view(g@) == Seq::new(r as nat, |k: int| empty_row()),
        decreases GRID_HEIGHT - r,
    {
        let row = new_empty_row();
        let ghost before = g@;
        g.push(row);
        r = r + 1;
        assert forall|k: int| 0 <= k < r - 1 implies #[trigger] grid_view(g@)[k] == grid_view(before)[k] by {
            assert(g@[k] == before[k]);
        }
        assert(grid_view(g@) =~= Seq::new(r as nat, |k: int| empty_row()));
    }
    assert(grid_view(g@) =~= empty_board());
    g
}

/// Whether every cell of the row is occupied.
pub fn row_is_full(row: &Vec<Option<Color>>) -> (full: bool)
    ensures
        full == row_full(row@),
{
    let mut c: usize = 0;
    while c < row.len()
        invariant
            c <= row@.len(),
            forall|k: int| 0 <= k < c ==> (#[trigger] row@[k]) is Some,
        decreases row@.len() - c,
    {
        if row[c].is_none() {
            return false;
        }
        c = c + 1;
    }
    true
}

} // verus!
