use vstd::prelude::*;

verus! {

/// Number of rows in the shape table; colors drawn by the generator lie in `[1, SHAPE_COUNT)`.
pub const SHAPE_COUNT: u8 = 7;

/// A tetromino: four absolute cells `(x, y)` on the grid and the color shared by all of them.
#[derive(Clone, Copy, Debug)]
pub struct Piece {
    pub cells: [(usize, usize); 4],
    pub color: u8,
}

/// The packed offset of cell `i` of shape `k`: cell `(p / 2, p % 2)` within a 4x2 box.
pub open spec fn shape_code(k: int, i: int) -> int {
    if k == 0 {
        seq![0int, 2, 4, 6][i]
    } else if k == 1 {
        seq![0int, 1, 2, 4][i]
    } else if k == 2 {
        seq![0int, 2, 4, 5][i]
    } else if k == 3 {
        seq![0int, 1, 2, 3][i]
    } else if k == 4 {
        seq![0int, 2, 3, 5][i]
    } else if k == 5 {
        seq![0int, 2, 3, 4][i]
    } else {
        seq![1int, 2, 3, 4][i]
    }
}

/// A color the generator may hand out.
pub open spec fn valid_color(c: int) -> bool {
    1 <= c < SHAPE_COUNT
}

/// The cells of a piece as integer pairs.
pub open spec fn coords(p: Piece) -> Seq<(int, int)> {
    seq![
        (p.cells[0].0 as int, p.cells[0].1 as int),
        (p.cells[1].0 as int, p.cells[1].1 as int),
        (p.cells[2].0 as int, p.cells[2].1 as int),
        (p.cells[3].0 as int, p.cells[3].1 as int),
    ]
}

/// `p` is shape `k`, decoded at its spawn place, with color `k`.
pub open spec fn is_shape(p: Piece, k: int) -> bool {
    &&& p.color == k
    &&& forall|i: int|
        0 <= i < 4 ==> #[trigger] coords(p)[i] == (shape_code(k, i) / 2, shape_code(k, i) % 2)
}

/// No two cells of `p` coincide.
pub open spec fn distinct_cells(p: Piece) -> bool {
    forall|i: int, j: int| 0 <= i < j < 4 ==> #[trigger] coords(p)[i] != #[trigger] coords(p)[j]
}

/// The packed offset of cell `i` of shape `k`.
fn shape_offset(k: u8, i: usize) -> (r: usize)
    requires
        k < SHAPE_COUNT,
        i < 4,
    ensures
        r as int == shape_code(k as int, i as int),
{
    let row: [usize; 4] = if k == 0 {
        [0, 2, 4, 6]
    } else if k == 1 {
        [0, 1, 2, 4]
    } else if k == 2 {
        [0, 2, 4, 5]
    } else if k == 3 {
        [0, 1, 2, 3]
    } else if k == 4 {
        [0, 2, 3, 5]
    } else if k == 5 {
        [0, 2, 3, 4]
    } else {
        [1, 2, 3, 4]
    };
    row[i]
}

impl Piece {
    /// Decodes shape `k` of the table at its spawn place, colored `k`.
    pub fn from_index(k: u8) -> (r: Piece)
        requires
            valid_color(k as int),
        ensures
            is_shape(r, k as int),
            distinct_cells(r),
    {
        let a = shape_offset(k, 0);
        let b = shape_offset(k, 1);
        let c = shape_offset(k, 2);
        let d = shape_offset(k, 3);
        let r = Piece { cells: [(a / 2, a % 2), (b / 2, b % 2), (c / 2, c % 2), (d / 2, d % 2)], color: k };
        assert(coords(r) =~= seq![
            (shape_code(k as int, 0) / 2, shape_code(k as int, 0) % 2),
            (shape_code(k as int, 1) / 2, shape_code(k as int, 1) % 2),
            (shape_code(k as int, 2) / 2, shape_code(k as int, 2) % 2),
            (shape_code(k as int, 3) / 2, shape_code(k as int, 3) % 2),
        ]);
        r
    }
}

} // verus!
