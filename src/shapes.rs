//! The seven tetromino kinds: their 4x4 occupancy matrices and colours.

use vstd::prelude::*;

verus! {

/// Width of the playfield, in cells.
pub const GRID_WIDTH: usize = 15;

/// Height of the playfield, in cells.
pub const GRID_HEIGHT: usize = 20;

/// Number of tetromino kinds in the catalog.
pub const SHAPE_COUNT: usize = 7;

/// An RGB colour.
#[derive(Clone, Copy, Debug, PartialEq, Eq, Structural)]
pub struct Color {
    pub r: u8,
    pub g: u8,
    pub b: u8,
}

/// A 4x4 occupancy matrix, indexed `[row][column]`.
pub type Shape = [[bool; 4]; 4];

/// The matrix of a shape as a sequence of rows.
pub open spec fn shape_view(s: Shape) -> Seq<Seq<bool>> {
    s@.map_values(|row: [bool; 4]| row@)
}

/// Whether local cell `(i, j)` of a matrix is occupied.
pub open spec fn view_cell(m: Seq<Seq<bool>>, i: int, j: int) -> bool {
    0 <= i < 4 && 0 <= j < 4 && m[i][j]
}

/// Whether `m` is a 4x4 matrix.
pub open spec fn is_square4(m: Seq<Seq<bool>>) -> bool {
    &&& m.len() == 4
    &&& forall|i: int| 0 <= i < 4 ==> (#[trigger] m[i]).len() == 4
}

/// The quarter turn `new[i][j] = old[3 - j][i]`.
pub open spec fn rotate_view(m: Seq<Seq<bool>>) -> Seq<Seq<bool>> {
    Seq::new(4, |i: int| Seq::new(4, |j: int| m[3 - j][i]))
}

/// The matrix of each kind: I, O, T, S, Z, J, L in that order.
pub open spec fn catalog_shape(kind: int) -> Seq<Seq<bool>> {
    let f = false;
    let t = true;
    if kind == 0 {
        seq![seq![f, f, f, f], seq![t, t, t, t], seq![f, f, f, f], seq![f, f, f, f]]
    } else if kind == 1 {
        seq![seq![f, f, f, f], seq![f, t, t, f], seq![f, t, t, f], seq![f, f, f, f]]
    } else if kind == 2 {
        seq![seq![f, f, f, f], seq![f, t, f, f], seq![t, t, t, f], seq![f, f, f, f]]
    } else if kind == 3 {
        seq![seq![f, f, f, f], seq![f, t, t, f], seq![t, t, f, f], seq![f, f, f, f]]
    } else if kind == 4 {
        seq![seq![f, f, f, f], seq![t, t, f, f], seq![f, t, t, f], seq![f, f, f, f]]
    } else if kind == 5 {
        seq![seq![f, f, f, f], seq![t, f, f, f], seq![t, t, t, f], seq![f, f, f, f]]
    } else {
        seq![seq![f, f, f, f], seq![f, f, t, f], seq![t, t, t, f], seq![f, f, f, f]]
    }
}

/// The colour of each kind: cyan, yellow, purple, green, red, blue, orange.
pub open spec fn catalog_color(kind: int) -> Color {
    if kind == 0 {
        Color { r: 0, g: 255, b: 255 }
    } else if kind == 1 {
        Color { r: 255, g: 255, b: 0 }
    } else if kind == 2 {
        Color { r: 128, g: 0, b: 128 }
    } else if kind == 3 {
        Color { r: 0, g: 255, b: 0 }
    } else if kind == 4 {
        Color { r: 255, g: 0, b: 0 }
    } else if kind == 5 {
        Color { r: 0, g: 0, b: 255 }
    } else {
        Color { r: 255, g: 165, b: 0 }
    }
}

/// The occupancy matrix of a kind.
pub fn shape_of(kind: usize) -> (r: Shape)
    requires
        kind < SHAPE_COUNT,
    ensures
        shape_view(r) == catalog_shape(kind as int),
{
    let f = false;
    let t = true;
    let r: Shape = if kind == 0 {
        [[f, f, f, f], [t, t, t, t], [f, f, f, f], [f, f, f, f]]
    } else if kind == 1 {
        [[f, f, f, f], [f, t, t, f], [f, t, t, f], [f, f, f, f]]
    } else if kind == 2 {
        [[f, f, f, f], [f, t, f, f], [t, t, t, f], [f, f, f, f]]
    } else if kind == 3 {
        [[f, f, f, f], [f, t, t, f], [t, t, f, f], [f, f, f, f]]
    } else if kind == 4 {
        [[f, f, f, f], [t, t, f, f], [f, t, t, f], [f, f, f, f]]
    } else if kind == 5 {
        [[f, f, f, f], [t, f, f, f], [t, t, t, f], [f, f, f, f]]
    } else {
        [[f, f, f, f], [f, f, t, f], [t, t, t, f], [f, f, f, f]]
    };
    assert(shape_view(r) =~~= catalog_shape(kind as int));
    r
}

/// The colour of a kind.
pub fn color_of(kind: usize) -> (c: Color)
    requires
        kind < SHAPE_COUNT,
    ensures
        c == catalog_color(kind as int),
{
    if kind == 0 {
        Color { r: 0, g: 255, b: 255 }
    } else if kind == 1 {
        Color { r: 255, g: 255, b: 0 }
    } else if kind == 2 {
        Color { r: 128, g: 0, b: 128 }
    } else if kind == 3 {
        Color { r: 0, g: 255, b: 0 }
    } else if kind == 4 {
        Color { r: 255, g: 0, b: 0 }
    } else if kind == 5 {
        Color { r: 0, g: 0, b: 255 }
    } else {
        Color { r: 255, g: 165, b: 0 }
    }
}

/// The quarter turn of a matrix.
pub fn rotated(s: &Shape) -> (r: Shape)
    ensures
        shape_view(r) == rotate_view(shape_view(*s)),
{
    let r: Shape = [
        [s[3][0], s[2][0], s[1][0], s[0][0]],
        [s[3][1], s[2][1], s[1][1], s[0][1]],
        [s[3][2], s[2][2], s[1][2], s[0][2]],
        [s[3][3], s[2][3], s[1][3], s[0][3]],
    ];
    assert(shape_view(r) =~~= rotate_view(shape_view(*s)));
    r
}

} // verus!
