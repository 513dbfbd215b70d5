//! The falling piece: a shape, a colour and the board position of the
//! shape's top-left corner.

use vstd::prelude::*;
use crate::shapes::{
    Color, Shape, GRID_WIDTH, GRID_HEIGHT, SHAPE_COUNT, shape_view, rotate_view,
    catalog_shape, catalog_color, view_cell, shape_of, color_of, rotated,
};

verus! {

/// How far from the board a piece's corner may stand.
pub const POSITION_LIMIT: i32 = 1000;

/// A piece: its matrix, its colour, and the board column `x` and row `y`
/// of the matrix's top-left corner.
#[derive(Clone, Copy, Debug)]
pub struct Tetromino {
    pub shape: Shape,
    pub color: Color,
    pub x: i32,
    pub y: i32,
}

/// Whether local cell `(i, j)` of a shape is occupied.
pub open spec fn shape_cell(s: Shape, i: int, j: int) -> bool {
    view_cell(shape_view(s), i, j)
}

/// Column where every spawned piece's matrix starts.
pub open spec fn spawn_x() -> int {
    GRID_WIDTH as int / 2 - 2
}

/// Whether `p` is a freshly spawned piece of the given kind.
pub open spec fn is_spawn_of(p: Tetromino, kind: int) -> bool {
    &&& shape_view(p.shape) == catalog_shape(kind)
    &&& p.color == catalog_color(kind)
    &&& p.x == spawn_x()
    &&& p.y == 0
}

/// Whether board cell (row `r`, column `c`) is covered by the piece.
pub open spec fn covers(p: Tetromino, r: int, c: int) -> bool {
    shape_cell(p.shape, r - p.y, c - p.x)
}

/// The piece moved by `(dx, dy)`.
pub open spec fn shifted(p: Tetromino, dx: int, dy: int) -> Tetromino {
    Tetromino { x: (p.x + dx) as i32, y: (p.y + dy) as i32, ..p }
}

impl Tetromino {
    /// A piece occupies at least one cell and stands within a bounded
    /// distance of the board.
    pub open spec fn wf(&self) -> bool {
        &&& exists|i: int, j: int| shape_cell(self.shape, i, j)
        &&& -POSITION_LIMIT <= self.x <= POSITION_LIMIT
        &&& -POSITION_LIMIT <= self.y <= POSITION_LIMIT
    }

    /// A fresh piece of the given kind, at the spawn position.
    pub fn of_kind(kind: usize) -> (p: Tetromino)
        requires
            kind < SHAPE_COUNT,
        ensures
            is_spawn_of(p, kind as int),
            p.wf(),
    {
        let p = Tetromino {
            shape: shape_of(kind),
            color: color_of(kind),
            x: (GRID_WIDTH as i32 / 2) - 2,
            y: 0,
        };
        if kind == 0 {
            assert(shape_cell(p.shape, 1, 1));
        } else {
            assert(shape_cell(p.shape, 2, 1));
        }
        p
    }

    /// A fresh piece of a kind drawn at random, at the spawn position.
    pub fn new() -> (p: Tetromino)
        ensures
            exists|kind: int| 0 <= kind < SHAPE_COUNT && is_spawn_of(p, kind),
            p.wf(),
    {
        let kind = draw_kind();
        Tetromino::of_kind(kind)
    }

    /// Turns the shape a quarter turn in place; colour and position stay.
    pub fn rotate(&mut self)
        ensures
            shape_view(final(self).shape) == rotate_view(shape_view(old(self).shape)),
            final(self).color == old(self).color,
            final(self).x == old(self).x,
            final(self).y == old(self).y,
            old(self).wf() ==> final(self).wf(),
    {
        let ghost before = *self;
        let new_shape = rotated(&self.shape);
        self.shape = new_shape;
        proof {
            if before.wf() {
                let (i, j) = choose|i: int, j: int| shape_cell(before.shape, i, j);
                assert(rotate_view(shape_view(before.shape))[j][3 - i] == shape_view(before.shape)[i][j]);
                assert(shape_cell(self.shape, j, 3 - i));
            }
        }
    }

    /// Whether board cell (row `r`, column `c`) is covered by this piece.
    pub fn covers_cell(&self, r: usize, c: usize) -> (b: bool)
        requires
            r < GRID_HEIGHT,
            c < GRID_WIDTH,
        ensures
            b == covers(*self, r as int, c as int),
    {
        let i = r as i64 - self.y as i64;
        let j = c as i64 - self.x as i64;
        if 0 <= i && i < 4 && 0 <= j && j < 4 {
            self.shape[i as usize][j as usize]
        } else {
            false
        }
    }
}

/// Relies on rand::thread_rng and rand::Rng::gen_range: a value drawn
/// from `0..n` lies in that range.
#[verifier::external_body]
fn draw_below(n: usize) -> (r: usize)
    requires
        0 < n,
    ensures
        r < n,
{
    rand::Rng::gen_range(&mut rand::thread_rng(), 0..n)
}

/// A tetromino kind drawn uniformly at random.
pub fn draw_kind() -> (k: usize)
    ensures
        k < SHAPE_COUNT,
{
    draw_below(SHAPE_COUNT)
}

} // verus!
