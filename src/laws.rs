//! Properties of the engine that relate several operations or hold of
//! every input, proved over the models the operations are specified with.

use vstd::prelude::*;
use vstd::set_lib::{set_int_range, lemma_int_range, lemma_set_disjoint_lens, lemma_map_size};
use vstd::arithmetic::div_mod::lemma_fundamental_div_mod_converse;
use crate::shapes::{GRID_WIDTH, GRID_HEIGHT, SHAPE_COUNT, is_square4, rotate_view, view_cell,
    catalog_shape, shape_view};
use crate::piece::{Tetromino, spawn_x, is_spawn_of, shifted, shape_cell, covers};
use crate::board::{
    Cells, is_board, empty_board, empty_row, occupied, fits_at, fits, locked, cleared, full_rows,
    kept_rows, row_full, row_stays,
};
use crate::game::{
    GameState, lock_advance, shift_outcome, rotate_outcome, down_outcome, holds_spawn, lands_after,
    drop_outcome,
};

verus! {

/// Four quarter turns bring every 4x4 matrix back to itself.
pub proof fn lemma_rotation_four_cycle(m: Seq<Seq<bool>>)
    requires
        is_square4(m),
    ensures
        rotate_view(rotate_view(rotate_view(rotate_view(m)))) == m,
{
    let m4 = rotate_view(rotate_view(rotate_view(rotate_view(m))));
    assert forall|i: int| 0 <= i < 4 implies #[trigger] m4[i] == m[i] by {
        assert(m4[i] =~= m[i]);
    }
    assert(m4 =~= m);
}

/// Four quarter turns bring the matrix of every kind back to itself.
pub proof fn lemma_catalog_rotation_four_cycle(kind: int)
    requires
        0 <= kind < SHAPE_COUNT,
    ensures
        rotate_view(rotate_view(rotate_view(rotate_view(catalog_shape(kind))))) == catalog_shape(kind),
{
    lemma_rotation_four_cycle(catalog_shape(kind));
}

/// On an empty board, a shape fits wherever all its cells lie within the
/// side walls and above the floor.
pub proof fn lemma_fits_on_empty_board(m: Seq<Seq<bool>>, x: int, y: int)
    requires
        forall|i: int, j: int| #[trigger] view_cell(m, i, j) ==> 0 <= x + j < GRID_WIDTH && y + i < GRID_HEIGHT,
    ensures
        fits_at(empty_board(), m, x, y),
{
}

/// Emptying cells never makes a placement fail: what fits on a board fits
/// on any board whose occupied cells are among its occupied cells.
pub proof fn lemma_fits_monotone(b1: Cells, b2: Cells, m: Seq<Seq<bool>>, x: int, y: int)
    requires
        forall|r: int, c: int| #[trigger] occupied(b2, r, c) ==> occupied(b1, r, c),
        fits_at(b1, m, x, y),
    ensures
        fits_at(b2, m, x, y),
{
    assert forall|i: int, j: int| #[trigger] view_cell(m, i, j) implies !occupied(b2, y + i, x + j) by {
        if occupied(b2, y + i, x + j) {
            assert(occupied(b1, y + i, x + j));
        }
    }
}

/// After clearing, the board has as many rows as before, none of them
/// full, and the top `full_rows(b)` rows are empty.
pub proof fn lemma_cleared_has_no_full_row(b: Cells)
    requires
        is_board(b),
    ensures
        cleared(b).len() == b.len(),
        forall|r: int| 0 <= r < full_rows(b) ==> #[trigger] cleared(b)[r] == empty_row(),
        forall|r: int| 0 <= r < b.len() ==> !row_full(#[trigger] cleared(b)[r]),
{
    b.lemma_filter_len(row_stays());
    assert forall|r: int| 0 <= r < b.len() implies !row_full(#[trigger] cleared(b)[r]) by {
        if r < full_rows(b) {
            assert(cleared(b)[r][0] is None);
        } else {
            b.lemma_filter_pred(row_stays(), r - full_rows(b));
            assert(cleared(b)[r] == kept_rows(b)[r - full_rows(b)]);
        }
    }
}

/// A board without full rows is left as it is by clearing.
pub proof fn lemma_clear_without_full_rows(b: Cells)
    requires
        forall|r: int| 0 <= r < b.len() ==> !row_full(#[trigger] b[r]),
    ensures
        full_rows(b) == 0,
        cleared(b) == b,
    decreases b.len(),
{
    reveal(Seq::filter);
    if b.len() > 0 {
        let front = b.drop_last();
        assert forall|r: int| 0 <= r < front.len() implies !row_full(#[trigger] front[r]) by {
            assert(front[r] == b[r]);
        }
        lemma_clear_without_full_rows(front);
        assert(kept_rows(front) == front);
        assert(row_stays()(b.last()));
        assert(kept_rows(b) == front.push(b.last()));
        assert(front.push(b.last()) =~= b);
    }
    assert(cleared(b) =~= b);
}

/// A column in row 1 that every kind but the I piece occupies, and that
/// the I piece occupies too.
pub open spec fn row_one_column(kind: int) -> int {
    if kind == 5 {
        0
    } else if kind == 6 {
        2
    } else if kind == 0 {
        0
    } else {
        1
    }
}

/// A local cell occupied by the matrices of both kinds.
pub open spec fn shared_cell(k1: int, k2: int) -> (int, int) {
    if k1 == 0 {
        (1, row_one_column(k2))
    } else if k2 == 0 {
        (1, row_one_column(k1))
    } else {
        (2, 1)
    }
}

pub proof fn lemma_kinds_overlap(k1: int, k2: int)
    requires
        0 <= k1 < SHAPE_COUNT,
        0 <= k2 < SHAPE_COUNT,
    ensures
        view_cell(catalog_shape(k1), shared_cell(k1, k2).0, shared_cell(k1, k2).1),
        view_cell(catalog_shape(k2), shared_cell(k1, k2).0, shared_cell(k1, k2).1),
{
}

/// The first piece locked where it spawned on the empty board completes
/// no row and covers a cell of every piece that could spawn next.
pub proof fn lemma_spawned_piece_blocks_spawn(p: Tetromino, k1: int, k2: int)
    requires
        0 <= k1 < SHAPE_COUNT,
        0 <= k2 < SHAPE_COUNT,
        is_spawn_of(p, k1),
    ensures
        forall|r: int| 0 <= r < GRID_HEIGHT ==> !row_full(#[trigger] locked(empty_board(), p)[r]),
        !fits_at(locked(empty_board(), p), catalog_shape(k2), spawn_x(), 0),
{
    let b1 = locked(empty_board(), p);
    assert forall|r: int| 0 <= r < GRID_HEIGHT implies !row_full(#[trigger] b1[r]) by {
        assert(b1[r][GRID_WIDTH - 1] is None);
    }
    lemma_kinds_overlap(k1, k2);
    let (i, j) = shared_cell(k1, k2);
    assert(covers(p, i, spawn_x() + j));
    assert(occupied(b1, i, spawn_x() + j));
}

/// A game ends at the first lock after it starts: the first piece, locked
/// where it spawned on the empty board, clears no row, scores nothing, and
/// covers a cell of every piece that could spawn next.
pub proof fn lemma_first_lock_at_spawn_ends_game(s0: GameState, s1: GameState, k1: int, k2: int)
    requires
        0 <= k1 < SHAPE_COUNT,
        0 <= k2 < SHAPE_COUNT,
        s0.board() == empty_board(),
        holds_spawn(s0.current_piece, k1),
        lock_advance(s0.board(), s0.score, s0.current_piece->0, k2, s1),
    ensures
        s1.game_over,
        s1.current_piece is None,
        s1.score == s0.score,
        s1.board() == locked(empty_board(), s0.current_piece->0),
{
    let p = s0.current_piece->0;
    let b1 = locked(empty_board(), p);
    lemma_spawned_piece_blocks_spawn(p, k1, k2);
    assert forall|r: int| 0 <= r < b1.len() implies !row_full(#[trigger] b1[r]) by {}
    lemma_clear_without_full_rows(b1);
}

/// Once the game is over, the moves and the turn change nothing, and a
/// step down reports no movement.
pub proof fn lemma_game_over_freezes(pre: GameState, post: GameState, dx: int, dy: int, kind: int, moved: bool)
    requires
        pre.game_over,
    ensures
        shift_outcome(pre, post, dx, dy) ==> post == pre,
        rotate_outcome(pre, post) ==> post == pre,
        down_outcome(pre, post, kind, moved) ==> post == pre && !moved,
{
}

/// A move left is refused when an occupied cell of the piece stands in
/// column 0: the piece keeps its place.
pub proof fn lemma_left_wall_blocks(pre: GameState, post: GameState, i: int, j: int)
    requires
        pre.wf(),
        pre.current_piece is Some,
        shape_cell(pre.current_piece->0.shape, i, j),
        pre.current_piece->0.x + j == 0,
        shift_outcome(pre, post, -1, 0),
    ensures
        post == pre,
{
    let p = pre.current_piece->0;
    assert(view_cell(shape_view(shifted(p, -1, 0).shape), i, j));
}

/// The filled cells of a board, each as the index `r * GRID_WIDTH + c`.
pub open spec fn filled_cells(b: Cells) -> Set<int> {
    set_int_range(0, GRID_HEIGHT * GRID_WIDTH).filter(
        |k: int| b[k / GRID_WIDTH as int][k % GRID_WIDTH as int] is Some,
    )
}

/// The number of filled cells of a board.
pub open spec fn filled_count(b: Cells) -> nat {
    filled_cells(b).len()
}

/// The occupied cells of a 4x4 matrix, each as the index `i * 4 + j`.
pub open spec fn matrix_cells(m: Seq<Seq<bool>>) -> Set<int> {
    set_int_range(0, 16).filter(|s: int| view_cell(m, s / 4, s % 4))
}

/// The number of occupied cells of a 4x4 matrix.
pub open spec fn matrix_cell_count(m: Seq<Seq<bool>>) -> nat {
    matrix_cells(m).len()
}

/// Locking a piece that fits and stands on or below the top row adds
/// exactly its cells to the board.
pub proof fn lemma_lock_adds_piece_cells(b: Cells, q: Tetromino)
    requires
        is_board(b),
        fits(b, q),
        q.y >= 0,
    ensures
        filled_count(locked(b, q)) == filled_count(b) + matrix_cell_count(shape_view(q.shape)),
{
    broadcast use vstd::set::group_set_axioms;
    let w = GRID_WIDTH as int;
    let m = shape_view(q.shape);
    let all = set_int_range(0, GRID_HEIGHT * GRID_WIDTH);
    let cov = all.filter(|k: int| covers(q, k / w, k % w));
    let f = |s: int| (q.y + s / 4) * w + (q.x + s % 4);
    lemma_int_range(0, GRID_HEIGHT * GRID_WIDTH);
    lemma_int_range(0, 16);
    assert(filled_cells(locked(b, q)) =~= filled_cells(b) + cov);
    assert forall|k: int| #[trigger] filled_cells(b).contains(k) implies !cov.contains(k) by {
        if cov.contains(k) {
            assert(view_cell(m, k / w - q.y, k % w - q.x));
        }
    }
    assert(filled_cells(b).disjoint(cov));
    lemma_set_disjoint_lens(filled_cells(b), cov);
    assert forall|s: int| #[trigger] matrix_cells(m).contains(s) implies cov.contains(f(s)) by {
        let (i, j) = (s / 4, s % 4);
        assert(view_cell(m, i, j));
        lemma_fundamental_div_mod_converse(f(s), w, q.y + i, q.x + j);
    }
    assert forall|k: int| #[trigger] cov.contains(k) implies matrix_cells(m).map(f).contains(k) by {
        let (i, j) = (k / w - q.y, k % w - q.x);
        let s = 4 * i + j;
        lemma_fundamental_div_mod_converse(s, 4, i, j);
        assert(matrix_cells(m).contains(s));
        assert(f(s) == k);
    }
    assert(matrix_cells(m).map(f) =~= cov);
    assert forall|s1: int, s2: int|
        matrix_cells(m).contains(s1) && matrix_cells(m).contains(s2) && #[trigger] f(s1) == #[trigger] f(s2)
        implies s1 == s2 by {
        assert(view_cell(m, s1 / 4, s1 % 4));
        assert(view_cell(m, s2 / 4, s2 % 4));
        lemma_fundamental_div_mod_converse(f(s1), w, q.y + s1 / 4, q.x + s1 % 4);
        lemma_fundamental_div_mod_converse(f(s2), w, q.y + s2 / 4, q.x + s2 % 4);
    }
    lemma_map_size(matrix_cells(m), cov, f);
}

/// How many rows a piece falls before it lands.
pub open spec fn landing_depth(b: Cells, p: Tetromino) -> int {
    choose|d: int| lands_after(b, p, d)
}

/// A piece lands after one number of rows only.
pub proof fn lemma_landing_is_unique(b: Cells, p: Tetromino, d1: int, d2: int)
    requires
        lands_after(b, p, d1),
        lands_after(b, p, d2),
    ensures
        d1 == d2,
{
    if d1 < d2 {
        assert(fits(b, shifted(p, 0, d1 + 1)));
    } else if d2 < d1 {
        assert(fits(b, shifted(p, 0, d2 + 1)));
    }
}

/// A hard drop locks the falling piece in once, where it lands, and then a
/// piece is spawned or the game is over. When that lock completes no row,
/// the board gains exactly the piece's cells, of which there is at least
/// one. This holds of a piece that fits where it stands, on or below the
/// top row.
pub proof fn lemma_hard_drop_locks_piece(pre: GameState, post: GameState, kind: int)
    requires
        pre.wf(),
        !pre.inactive(),
        fits(pre.board(), pre.current_piece->0),
        pre.current_piece->0.y >= 0,
        drop_outcome(pre, post, kind),
    ensures
        ({
            let p = pre.current_piece->0;
            let b1 = locked(pre.board(), shifted(p, 0, landing_depth(pre.board(), p)));
            &&& post.board() == cleared(b1)
            &&& (forall|r: int| 0 <= r < GRID_HEIGHT ==> !row_full(#[trigger] b1[r]))
                ==> filled_count(post.board()) == filled_count(pre.board())
                + matrix_cell_count(shape_view(p.shape))
        }),
        matrix_cell_count(shape_view(pre.current_piece->0.shape)) > 0,
        post.game_over || holds_spawn(post.current_piece, kind),
{
    let b = pre.board();
    let p = pre.current_piece->0;
    let m = shape_view(p.shape);
    let d = choose|d: int| #[trigger] lands_after(b, p, d)
        && lock_advance(b, pre.score, shifted(p, 0, d), kind, post);
    lemma_landing_is_unique(b, p, d, landing_depth(b, p));
    let q = shifted(p, 0, d);
    crate::game::lemma_fitting_piece_bounds(b, p);
    let (i0, j0) = choose|i: int, j: int| shape_cell(p.shape, i, j);
    assert(view_cell(m, i0, j0));
    if d >= GRID_HEIGHT - p.y {
        let e = GRID_HEIGHT - p.y;
        assert(fits(b, shifted(p, 0, e)));
        assert(view_cell(shape_view(shifted(p, 0, e).shape), i0, j0));
    }
    assert(q.y >= 0);
    lemma_lock_adds_piece_cells(b, q);
    let b1 = locked(b, q);
    if forall|r: int| 0 <= r < GRID_HEIGHT ==> !row_full(#[trigger] b1[r]) {
        lemma_clear_without_full_rows(b1);
    }
    let (i, j) = choose|i: int, j: int| shape_cell(p.shape, i, j);
    lemma_int_range(0, 16);
    assert(matrix_cells(m).contains(4 * i + j)) by {
        lemma_fundamental_div_mod_converse(4 * i + j, 4, i, j);
    }
    if matrix_cells(m).len() == 0 {
        matrix_cells(m).lemma_len0_is_empty();
    }
}

} // verus!
