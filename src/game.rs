//! The game engine: board, falling piece, score and the game-over flag,
//! with the commands that drive them.

use vstd::prelude::*;
use crate::shapes::{
    Color, GRID_WIDTH, GRID_HEIGHT, SHAPE_COUNT, shape_view, view_cell, rotate_view,
    catalog_shape,
};
use crate::piece::{Tetromino, POSITION_LIMIT, is_spawn_of, spawn_x, shifted, covers, draw_kind};
use crate::board::{
    Cells, grid_view, is_board, empty_board, fits_at, fits, locked, cleared, full_rows,
    new_empty_grid, new_empty_row, row_is_full, empty_row, kept_rows,
    lemma_kept_rows_extend,
};

verus! {

/// Points for clearing `n` rows with one piece: 100 per row, times `n`.
pub open spec fn line_award(n: nat) -> nat {
    n * n * 100
}

/// `score + points`, held at `u64::MAX`.
pub open spec fn add_capped(score: u64, points: nat) -> u64 {
    if score + points > u64::MAX {
        u64::MAX
    } else {
        (score + points) as u64
    }
}

/// The whole engine state. `grid` holds `GRID_HEIGHT` rows of
/// `GRID_WIDTH` cells, row 0 at the top.
pub struct GameState {
    pub grid: Vec<Vec<Option<Color>>>,
    pub current_piece: Option<Tetromino>,
    pub score: u64,
    pub game_over: bool,
}

/// A piece is falling, freshly spawned of the given kind.
pub open spec fn holds_spawn(piece: Option<Tetromino>, kind: int) -> bool {
    piece matches Some(p) && is_spawn_of(p, kind)
}

/// What spawning a piece of `kind` onto board `b` leaves: the piece, when it
/// fits; otherwise no piece and the game over.
pub open spec fn spawn_outcome(b: Cells, kind: int, post: GameState) -> bool {
    if fits_at(b, catalog_shape(kind), spawn_x(), 0) {
        &&& holds_spawn(post.current_piece, kind)
        &&& !post.game_over
    } else {
        &&& post.current_piece is None
        &&& post.game_over
    }
}

/// The state after piece `p` lands on board `b` with score `score`: the
/// piece is locked in, full rows are cleared and scored, and a piece of
/// `kind` is spawned.
pub open spec fn lock_advance(b: Cells, score: u64, p: Tetromino, kind: int, post: GameState) -> bool {
    let b1 = locked(b, p);
    &&& post.board() == cleared(b1)
    &&& post.score == add_capped(score, line_award(full_rows(b1)))
    &&& spawn_outcome(cleared(b1), kind, post)
}

/// The state `s` with `p` as its falling piece.
pub open spec fn with_piece(s: GameState, p: Tetromino) -> GameState {
    GameState { current_piece: Some(p), ..s }
}

/// A move by `(dx, dy)` from `pre`: taken when a piece is falling and it
/// fits at the new place, otherwise nothing changes.
pub open spec fn shift_outcome(pre: GameState, post: GameState, dx: int, dy: int) -> bool {
    if !pre.inactive() && fits(pre.board(), shifted(pre.current_piece->0, dx, dy)) {
        post == with_piece(pre, shifted(pre.current_piece->0, dx, dy))
    } else {
        post == pre
    }
}

/// A quarter turn from `pre`: taken when a piece is falling and the turned
/// shape fits where it stands, otherwise nothing changes.
pub open spec fn rotate_outcome(pre: GameState, post: GameState) -> bool {
    let p = pre.current_piece->0;
    if !pre.inactive() && fits_at(pre.board(), rotate_view(shape_view(p.shape)), p.x as int, p.y as int) {
        &&& post.current_piece matches Some(q) && {
            &&& shape_view(q.shape) == rotate_view(shape_view(p.shape))
            &&& q.color == p.color
            &&& q.x == p.x
            &&& q.y == p.y
        }
        &&& post.grid == pre.grid
        &&& post.score == pre.score
        &&& post.game_over == pre.game_over
    } else {
        post == pre
    }
}

/// A piece that fits stands with a cell inside the side walls and above
/// the floor.
pub proof fn lemma_fitting_piece_bounds(b: Cells, p: Tetromino)
    requires
        p.wf(),
        fits(b, p),
    ensures
        -4 < p.x < GRID_WIDTH,
        p.y < GRID_HEIGHT,
{
    let (i, j) = choose|i: int, j: int| crate::piece::shape_cell(p.shape, i, j);
    assert(view_cell(shape_view(p.shape), i, j));
}

/// The outcome of one step down from `pre`, where `kind` is the kind of
/// the piece spawned should the falling piece land: the piece drops a row
/// when it fits there (`moved`); otherwise it is locked in.
pub open spec fn down_outcome(pre: GameState, post: GameState, kind: int, moved: bool) -> bool {
    if pre.inactive() {
        post == pre && !moved
    } else if fits(pre.board(), shifted(pre.current_piece->0, 0, 1)) {
        post == with_piece(pre, shifted(pre.current_piece->0, 0, 1)) && moved
    } else {
        lock_advance(pre.board(), pre.score, pre.current_piece->0, kind, post) && !moved
    }
}

/// Piece `p` falls `d` rows to its landing place on board `b`: each row on
/// the way fits, the next one does not.
pub open spec fn lands_after(b: Cells, p: Tetromino, d: int) -> bool {
    &&& 0 <= d
    &&& forall|e: int| 1 <= e <= d ==> #[trigger] fits(b, shifted(p, 0, e))
    &&& !fits(b, shifted(p, 0, d + 1))
}

/// The outcome of a hard drop from `pre`: the piece falls to its landing
/// place and is locked in there, once.
pub open spec fn drop_outcome(pre: GameState, post: GameState, kind: int) -> bool {
    if pre.inactive() {
        post == pre
    } else {
        exists|d: int| #[trigger] lands_after(pre.board(), pre.current_piece->0, d)
            && lock_advance(pre.board(), pre.score, shifted(pre.current_piece->0, 0, d), kind, post)
    }
}

impl GameState {
    /// The cells of the board.
    pub open spec fn board(&self) -> Cells {
        grid_view(self.grid@)
    }

    /// The grid has the board's dimensions and a falling piece is well formed.
    pub open spec fn wf(&self) -> bool {
        &&& is_board(self.board())
        &&& self.current_piece matches Some(p) ==> p.wf()
    }

    /// No piece is falling: the game is over or has not started.
    pub open spec fn inactive(&self) -> bool {
        self.game_over || self.current_piece is None
    }

    /// An empty board with no piece, score 0.
    pub fn new() -> (s: GameState)
        ensures
            s.wf(),
            s.board() == empty_board(),
            s.current_piece is None,
            s.score == 0,
            !s.game_over,
    {
        GameState { grid: new_empty_grid(), current_piece: None, score: 0, game_over: false }
    }

    /// Starts a new game whose first piece is of the given kind.
    pub fn start_with(&mut self, kind: usize)
        requires
            kind < SHAPE_COUNT,
        ensures
            final(self).wf(),
            final(self).board() == empty_board(),
            holds_spawn(final(self).current_piece, kind as int),
            final(self).score == 0,
            !final(self).game_over,
    {
        self.grid = new_empty_grid();
        self.current_piece = Some(Tetromino::of_kind(kind));
        self.score = 0;
        self.game_over = false;
    }

    /// Starts a new game with a piece of a random kind.
    pub fn start(&mut self)
        ensures
            final(self).wf(),
            final(self).board() == empty_board(),
            exists|kind: int| 0 <= kind < SHAPE_COUNT && #[trigger] holds_spawn(final(self).current_piece, kind),
            final(self).score == 0,
            !final(self).game_over,
    {
        let kind = draw_kind();
        self.start_with(kind);
    }

    /// Whether board cell (column `x`, row `y`) holds a locked colour; cells
    /// off the board, above it in particular, never do.
    pub fn is_occupied(&self, x: i64, y: i64) -> (b: bool)
        requires
            self.wf(),
        ensures
            b == crate::board::occupied(self.board(), y as int, x as int),
    {
        if 0 <= y && y < GRID_HEIGHT as i64 && 0 <= x && x < GRID_WIDTH as i64 {
            assert(self.grid@[y as int]@ == self.board()[y as int]);
            self.grid[y as usize][x as usize].is_some()
        } else {
            false
        }
    }

    /// Whether `piece`, moved by `(dx, dy)`, may stand on the board.
    pub fn can_move(&self, piece: &Tetromino, dx: i32, dy: i32) -> (ok: bool)
        requires
            self.wf(),
        ensures
            ok == fits_at(self.board(), shape_view(piece.shape), piece.x + dx, piece.y + dy),
    {
        let ghost m = shape_view(piece.shape);
        let ghost b = self.board();
        let x = piece.x as i64 + dx as i64;
        let y = piece.y as i64 + dy as i64;
        let mut i: usize = 0;
        while i < 4
            invariant
                i <= 4,
                self.wf(),
                m == shape_view(piece.shape),
                b == self.board(),
                x == piece.x + dx,
                y == piece.y + dy,
                forall|a: int, c: int| 0 <= a < i && #[trigger] view_cell(m, a, c) ==> {
                    &&& 0 <= x + c < GRID_WIDTH
                    &&& y + a < GRID_HEIGHT
                    &&& !crate::board::occupied(b, y + a, x + c)
                },
            decreases 4 - i,
        {
            let mut j: usize = 0;
            while j < 4
                invariant
                    i < 4,
                    j <= 4,
                    self.wf(),
                    m == shape_view(piece.shape),
                    b == self.board(),
                    x == piece.x + dx,
                    y == piece.y + dy,
                    forall|a: int, c: int| (0 <= a < i || (a == i && 0 <= c < j)) && #[trigger] view_cell(m, a, c) ==> {
                        &&& 0 <= x + c < GRID_WIDTH
                        &&& y + a < GRID_HEIGHT
                        &&& !crate::board::occupied(b, y + a, x + c)
                    },
                decreases 4 - j,
            {
                if piece.shape[i][j] {
                    assert(view_cell(m, i as int, j as int));
                    let nx = x + j as i64;
                    let ny = y + i as i64;
                    if nx < 0 || nx >= GRID_WIDTH as i64 || ny >= GRID_HEIGHT as i64 {
                        return false;
                    }
                    if self.is_occupied(nx, ny) {
                        return false;
                    }
                }
                j = j + 1;
            }
            i = i + 1;
        }
        true
    }

    /// Removes every full row, scanning from the bottom: a full row is
    /// taken out, the rows above it drop by one, an empty row enters at the
    /// top, and the same row index is examined again. Adds the award for the
    /// rows removed to the score and returns their number.
    pub fn clear_lines(&mut self) -> (n: usize)
        requires
            old(self).wf(),
        ensures
            final(self).wf(),
            n == full_rows(old(self).board()),
            final(self).board() == cleared(old(self).board()),
            final(self).score == add_capped(old(self).score, line_award(n as nat)),
            final(self).current_piece == old(self).current_piece,
            final(self).game_over == old(self).game_over,
            old(self).score <= final(self).score,
    {
        let ghost ob = self.board();
        let ghost mut m: int = GRID_HEIGHT as int;
        let mut count: usize = 0;
        let mut y: usize = GRID_HEIGHT;
        assert(ob.subrange(GRID_HEIGHT as int, GRID_HEIGHT as int).filter(crate::board::row_stays()) =~= Seq::empty());
        assert(self.board() =~= Seq::new(0, |r: int| empty_row()) + ob.subrange(0, m)
            + kept_rows(ob.subrange(m, GRID_HEIGHT as int)));
        while y > 0
            invariant
                ob == old(self).board(),
                is_board(ob),
                is_board(self.board()),
                count <= GRID_HEIGHT,
                0 <= m <= GRID_HEIGHT,
                y <= GRID_HEIGHT,
                m > 0 ==> y == count + m,
                m == 0 ==> y <= count,
                count + m + kept_rows(ob.subrange(m, GRID_HEIGHT as int)).len() == GRID_HEIGHT,
                self.board() == Seq::new(count as nat, |r: int| empty_row()) + ob.subrange(0, m)
                    + kept_rows(ob.subrange(m, GRID_HEIGHT as int)),
                self.current_piece == old(self).current_piece,
                self.score == old(self).score,
                self.game_over == old(self).game_over,
            decreases y + m,
        {
            let ghost before = self.board();
            proof {
                let pre = Seq::new(count as nat, |r: int| empty_row());
                assert(before == pre + ob.subrange(0, m) + kept_rows(ob.subrange(m, GRID_HEIGHT as int)));
                if m > 0 {
                    assert((pre + ob.subrange(0, m))[y - 1] == ob[m - 1]);
                    assert(before[y - 1] == ob[m - 1]);
                    lemma_kept_rows_extend(ob, m);
                } else {
                    assert(before[y - 1] == empty_row());
                    assert(empty_row()[0] is None);
                }
            }
            assert(self.grid@[y - 1]@ == before[y - 1]);
            if row_is_full(&self.grid[y - 1]) {
                self.grid.remove(y - 1);
                let row = new_empty_row();
                self.grid.insert(0, row);
                count = count + 1;
                proof {
                    m = m - 1;
                    assert(self.board() =~= seq![empty_row()] + before.remove(y - 1));
                    assert(self.board() =~= Seq::new(count as nat, |r: int| empty_row()) + ob.subrange(0, m)
                        + kept_rows(ob.subrange(m, GRID_HEIGHT as int)));
                }
            } else {
                y = y - 1;
                proof {
                    if m > 0 {
                        m = m - 1;
                        assert(self.board() =~= Seq::new(count as nat, |r: int| empty_row()) + ob.subrange(0, m)
                            + kept_rows(ob.subrange(m, GRID_HEIGHT as int)));
                    }
                }
            }
        }
        proof {
            assert(ob.subrange(0, GRID_HEIGHT as int) =~= ob);
            assert(self.board() =~= cleared(ob));
        }
        assert(count * count <= 400) by (nonlinear_arith)
            requires
                count <= 20,
        ;
        let points = (count * count * 100) as u64;
        self.score = self.score.saturating_add(points);
        count
    }

    /// Row `r` of the board with the piece's colour written into the cells
    /// it covers.
    fn locked_row(&self, p: &Tetromino, r: usize) -> (row: Vec<Option<Color>>)
        requires
            self.wf(),
            r < GRID_HEIGHT,
        ensures
            row@ == locked(self.board(), *p)[r as int],
    {
        let mut row: Vec<Option<Color>> = Vec::new();
        let mut c: usize = 0;
        assert(self.grid@[r as int]@ == self.board()[r as int]);
        while c < GRID_WIDTH
            invariant
                self.wf(),
                r < GRID_HEIGHT,
                self.grid@[r as int]@ == self.board()[r as int],
                c <= GRID_WIDTH,
                row@.len() == c,
                forall|k: int| 0 <= k < c ==> #[trigger] row@[k] == locked(self.board(), *p)[r as int][k],
            decreases GRID_WIDTH - c,
        {
            let cell = if p.covers_cell(r, c) {
                Some(p.color)
            } else {
                self.grid[r][c]
            };
            row.push(cell);
            c = c + 1;
        }
        assert(row@ =~= locked(self.board(), *p)[r as int]);
        row
    }

    /// Writes the piece's colour into every board cell it covers; cells
    /// off the board are left out.
    fn lock_cells(&mut self, p: &Tetromino)
        requires
            old(self).wf(),
        ensures
            final(self).wf(),
            final(self).board() == locked(old(self).board(), *p),
            final(self).current_piece == old(self).current_piece,
            final(self).score == old(self).score,
            final(self).game_over == old(self).game_over,
    {
        let mut g: Vec<Vec<Option<Color>>> = Vec::new();
        let mut r: usize = 0;
        while r < GRID_HEIGHT
            invariant
                self.wf(),
                r <= GRID_HEIGHT,
                g@.len() == r,
                forall|k: int| 0 <= k < r ==> #[trigger] g@[k]@ == locked(self.board(), *p)[k],
            decreases GRID_HEIGHT - r,
        {
            let row = self.locked_row(p, r);
            g.push(row);
            r = r + 1;
        }
        assert(grid_view(g@) =~= locked(self.board(), *p));
        self.grid = g;
    }

    /// Spawns a piece of the given kind: it becomes the falling piece when
    /// it fits; otherwise the game is over. Does nothing once the game is
    /// over.
    pub fn spawn_new_piece_with(&mut self, kind: usize)
        requires
            old(self).wf(),
            kind < SHAPE_COUNT,
        ensures
            final(self).wf(),
            old(self).game_over ==> *final(self) == *old(self),
            !old(self).game_over ==> {
                &&& final(self).grid == old(self).grid
                &&& final(self).score == old(self).score
                &&& spawn_outcome(old(self).board(), kind as int, *final(self))
            },
            final(self).score == old(self).score,
    {
        if self.game_over {
            return;
        }
        let new_piece = Tetromino::of_kind(kind);
        if self.can_move(&new_piece, 0, 0) {
            self.current_piece = Some(new_piece);
        } else {
            self.current_piece = None;
            self.game_over = true;
        }
    }

    /// Spawns a piece of a random kind, as `spawn_new_piece_with` does.
    pub fn spawn_new_piece(&mut self)
        requires
            old(self).wf(),
        ensures
            final(self).wf(),
            old(self).game_over ==> *final(self) == *old(self),
            !old(self).game_over ==> {
                &&& final(self).grid == old(self).grid
                &&& final(self).score == old(self).score
                &&& exists|kind: int| 0 <= kind < SHAPE_COUNT
                    && #[trigger] spawn_outcome(old(self).board(), kind, *final(self))
            },
            final(self).score == old(self).score,
    {
        let kind = draw_kind();
        self.spawn_new_piece_with(kind);
    }

    /// Locks the falling piece into the board, clears and scores full
    /// rows, and spawns a piece of the given kind. Does nothing when no
    /// piece is falling.
    pub fn lock_piece_with(&mut self, kind: usize)
        requires
            old(self).wf(),
            kind < SHAPE_COUNT,
        ensures
            final(self).wf(),
            old(self).inactive() ==> *final(self) == *old(self),
            !old(self).inactive() ==> lock_advance(
                old(self).board(),
                old(self).score,
                old(self).current_piece->0,
                kind as int,
                *final(self),
            ),
            old(self).score <= final(self).score,
    {
        if self.game_over {
            return;
        }
        let cur = self.current_piece;
        if let Some(piece) = cur {
            self.lock_cells(&piece);
            self.clear_lines();
            self.spawn_new_piece_with(kind);
        }
    }

    /// Locks the falling piece and spawns one of a random kind, as
    /// `lock_piece_with` does.
    pub fn lock_piece(&mut self)
        requires
            old(self).wf(),
        ensures
            final(self).wf(),
            old(self).inactive() ==> *final(self) == *old(self),
            !old(self).inactive() ==> exists|kind: int| 0 <= kind < SHAPE_COUNT
                && #[trigger] lock_advance(
                old(self).board(),
                old(self).score,
                old(self).current_piece->0,
                kind,
                *final(self),
            ),
            old(self).score <= final(self).score,
    {
        let kind = draw_kind();
        self.lock_piece_with(kind);
    }

    /// Moves the falling piece one column left, if it fits there.
    pub fn move_left(&mut self)
        requires
            old(self).wf(),
        ensures
            final(self).wf(),
            old(self).score <= final(self).score,
            shift_outcome(*old(self), *final(self), -1, 0),
    {
        if self.game_over {
            return;
        }
        let cur = self.current_piece;
        if let Some(piece) = cur {
            let moved_piece = Tetromino { x: piece.x - 1, ..piece };
            if self.can_move(&moved_piece, 0, 0) {
                proof {
                    lemma_fitting_piece_bounds(self.board(), moved_piece);
                }
                self.current_piece = Some(moved_piece);
            }
        }
    }

    /// Moves the falling piece one column right, if it fits there.
    pub fn move_right(&mut self)
        requires
            old(self).wf(),
        ensures
            final(self).wf(),
            old(self).score <= final(self).score,
            shift_outcome(*old(self), *final(self), 1, 0),
    {
        if self.game_over {
            return;
        }
        let cur = self.current_piece;
        if let Some(piece) = cur {
            let moved_piece = Tetromino { x: piece.x + 1, ..piece };
            if self.can_move(&moved_piece, 0, 0) {
                proof {
                    lemma_fitting_piece_bounds(self.board(), moved_piece);
                }
                self.current_piece = Some(moved_piece);
            }
        }
    }

    /// Turns the falling piece a quarter turn where it stands, if the turned
    /// shape fits there.
    pub fn rotate(&mut self)
        requires
            old(self).wf(),
        ensures
            final(self).wf(),
            old(self).score <= final(self).score,
            rotate_outcome(*old(self), *final(self)),
    {
        if self.game_over {
            return;
        }
        let cur = self.current_piece;
        if let Some(piece) = cur {
            let mut turned = piece;
            turned.rotate();
            if self.can_move(&turned, 0, 0) {
                self.current_piece = Some(turned);
            }
        }
    }

    /// Moves the falling piece one row down if it fits there and returns
    /// `true`; otherwise locks it, spawns a piece of the given kind and
    /// returns `false`. Returns `false` when no piece is falling.
    pub fn move_down_with(&mut self, kind: usize) -> (moved: bool)
        requires
            old(self).wf(),
            kind < SHAPE_COUNT,
        ensures
            final(self).wf(),
            down_outcome(*old(self), *final(self), kind as int, moved),
            old(self).score <= final(self).score,
    {
        if self.game_over {
            return false;
        }
        let cur = self.current_piece;
        if let Some(piece) = cur {
            let moved_piece = Tetromino { y: piece.y + 1, ..piece };
            if self.can_move(&moved_piece, 0, 0) {
                proof {
                    lemma_fitting_piece_bounds(self.board(), moved_piece);
                }
                self.current_piece = Some(moved_piece);
                true
            } else {
                self.lock_piece_with(kind);
                false
            }
        } else {
            false
        }
    }

    /// One step down, as `move_down_with` does, spawning a piece of a
    /// random kind should the falling piece land.
    pub fn move_down(&mut self) -> (moved: bool)
        requires
            old(self).wf(),
        ensures
            final(self).wf(),
            exists|kind: int| 0 <= kind < SHAPE_COUNT
                && #[trigger] down_outcome(*old(self), *final(self), kind, moved),
            old(self).score <= final(self).score,
    {
        let kind = draw_kind();
        self.move_down_with(kind)
    }

    /// Hard drop: moves the falling piece down until it lands, then locks it
    /// and spawns a piece of the given kind.
    pub fn drop_with(&mut self, kind: usize)
        requires
            old(self).wf(),
            kind < SHAPE_COUNT,
        ensures
            final(self).wf(),
            drop_outcome(*old(self), *final(self), kind as int),
            old(self).score <= final(self).score,
    {
        if self.game_over || self.current_piece.is_none() {
            return;
        }
        let ghost pre = *self;
        let ghost p0 = self.current_piece->0;
        let ghost mut d: int = 0;
        loop
            invariant_except_break
                self.wf(),
                0 <= d,
                self.current_piece == Some(shifted(p0, 0, d)),
                d == 0 || p0.y + d < GRID_HEIGHT,
                p0.y <= POSITION_LIMIT,
                self.grid == pre.grid,
                self.score == pre.score,
                !self.game_over,
                forall|e: int| 1 <= e <= d ==> #[trigger] fits(pre.board(), shifted(p0, 0, e)),
            invariant
                pre.wf(),
                !pre.inactive(),
                kind < SHAPE_COUNT,
                p0 == pre.current_piece->0,
            ensures
                self.wf(),
                drop_outcome(pre, *self, kind as int),
                pre.score <= self.score,
            decreases GRID_HEIGHT + POSITION_LIMIT - p0.y - d,
        {
            let moved = self.move_down_with(kind);
            if !moved {
                proof {
                    assert(shifted(shifted(p0, 0, d), 0, 1) == shifted(p0, 0, d + 1));
                    assert(lands_after(pre.board(), p0, d));
                }
                break;
            }
            proof {
                assert(shifted(shifted(p0, 0, d), 0, 1) == shifted(p0, 0, d + 1));
                d = d + 1;
                lemma_fitting_piece_bounds(pre.board(), shifted(p0, 0, d));
            }
        }
    }

    /// Hard drop, as `drop_with` does, spawning a piece of a random kind.
    pub fn drop(&mut self)
        requires
            old(self).wf(),
        ensures
            final(self).wf(),
            exists|kind: int| 0 <= kind < SHAPE_COUNT && #[trigger] drop_outcome(*old(self), *final(self), kind),
            old(self).score <= final(self).score,
    {
        let kind = draw_kind();
        self.drop_with(kind);
    }
}

} // verus!
