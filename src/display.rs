//! A read-only snapshot of the playfield for a presentation layer: locked
//! cells merged with the falling piece.

use vstd::prelude::*;
use crate::shapes::{Color, GRID_WIDTH, GRID_HEIGHT};
use crate::piece::covers;
use crate::game::GameState;

verus! {

/// One displayed cell; the colour of an unfilled cell is black.
#[derive(Clone, Copy, Debug, PartialEq, Eq, Structural)]
pub struct Cell {
    pub color: Color,
    pub filled: bool,
}

pub open spec fn blank_cell() -> Cell {
    Cell { color: Color { r: 0, g: 0, b: 0 }, filled: false }
}

/// What is shown at row `r`, column `c`: the locked colour if there is
/// one, else the falling piece's colour where it covers the cell, else a
/// blank cell.
pub open spec fn display_cell(s: GameState, r: int, c: int) -> Cell {
    match s.board()[r][c] {
        Some(col) => Cell { color: col, filled: true },
        None => if s.current_piece is Some && covers(s.current_piece->0, r, c) {
            Cell { color: s.current_piece->0.color, filled: true }
        } else {
            blank_cell()
        },
    }
}

impl GameState {
    /// The displayed grid, `GRID_HEIGHT` rows of `GRID_WIDTH` cells.
    pub fn get_display_grid(&self) -> (grid: Vec<Vec<Cell>>)
        requires
            self.wf(),
        ensures
            grid@.len() == GRID_HEIGHT,
            forall|r: int| 0 <= r < GRID_HEIGHT ==> (#[trigger] grid@[r])@.len() == GRID_WIDTH,
            forall|r: int, c: int| 0 <= r < GRID_HEIGHT && 0 <= c < GRID_WIDTH
                ==> #[trigger] grid@[r]@[c] == display_cell(*self, r, c),
    {
        let mut grid: Vec<Vec<Cell>> = Vec::new();
        let mut y: usize = 0;
        while y < GRID_HEIGHT
            invariant
                self.wf(),
                y <= GRID_HEIGHT,
                grid@.len() == y,
                forall|r: int| 0 <= r < y ==> (#[trigger] grid@[r])@.len() == GRID_WIDTH,
                forall|r: int, c: int| 0 <= r < y && 0 <= c < GRID_WIDTH
                    ==> #[trigger] grid@[r]@[c] == display_cell(*self, r, c),
            decreases GRID_HEIGHT - y,
        {
            let mut row: Vec<Cell> = Vec::new();
            let mut x: usize = 0;
            assert(self.grid@[y as int]@ == self.board()[y as int]);
            while x < GRID_WIDTH
                invariant
                    self.wf(),
                    y < GRID_HEIGHT,
                    self.grid@[y as int]@ == self.board()[y as int],
                    x <= GRID_WIDTH,
                    row@.len() == x,
                    forall|c: int| 0 <= c < x ==> #[trigger] row@[c] == display_cell(*self, y as int, c),
                decreases GRID_WIDTH - x,
            {
                let mut cell = Cell { color: Color { r: 0, g: 0, b: 0 }, filled: false };
                if let Some(color) = self.grid[y][x] {
                    cell = Cell { color, filled: true };
                } else if let Some(piece) = self.current_piece {
                    if piece.covers_cell(y, x) {
                        cell = Cell { color: piece.color, filled: true };
                    }
                }
                row.push(cell);
                x = x + 1;
            }
            grid.push(row);
            y = y + 1;
        }
        grid
    }
}

} // verus!
