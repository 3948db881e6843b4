use vstd::prelude::*;
use crate::piece::{coords, Piece};

verus! {

/// Columns of the grid.
pub const WIDTH: usize = 10;
/// Rows that are drawn.
pub const VISIBLE_HEIGHT: usize = 20;
/// Rows above the visible area where pieces are born.
pub const HIDDEN_ROWS: usize = 4;
/// All rows of the grid, hidden ones first.
pub const HEIGHT: usize = VISIBLE_HEIGHT + HIDDEN_ROWS;
/// Number of cells of the grid.
pub const SIZE: usize = WIDTH * HEIGHT;

/// `(x, y)` names a cell of the grid.
pub open spec fn in_grid(x: int, y: int) -> bool {
    0 <= x < WIDTH && 0 <= y < HEIGHT
}

/// Row-major index of cell `(x, y)`.
pub open spec fn index_of(x: int, y: int) -> int {
    x + y * WIDTH
}

/// The value stored at cell `(x, y)` of the grid `f`.
pub open spec fn cell_at(f: Seq<u8>, x: int, y: int) -> u8 {
    f[index_of(x, y)]
}

/// Cell `(x, y)` of `f` holds a locked block.
pub open spec fn occupied(f: Seq<u8>, x: int, y: int) -> bool {
    cell_at(f, x, y) != 0
}

/// `f` with `color` written at each of the four cells `cs`, in order.
pub open spec fn stamp(f: Seq<u8>, cs: Seq<(int, int)>, color: u8) -> Seq<u8> {
    f.update(index_of(cs[0].0, cs[0].1), color)
        .update(index_of(cs[1].0, cs[1].1), color)
        .update(index_of(cs[2].0, cs[2].1), color)
        .update(index_of(cs[3].0, cs[3].1), color)
}

/// Each of the four cells lies on the grid.
pub open spec fn cells_in_grid(cs: Seq<(int, int)>) -> bool {
    forall|i: int| 0 <= i < 4 ==> in_grid(#[trigger] cs[i].0, cs[i].1)
}

/// The grid of locked blocks: 0 is empty, any other value is the color of a block.
pub struct Playfield {
    cells: Vec<u8>,
}

impl View for Playfield {
    type V = Seq<u8>;

    closed spec fn view(&self) -> Seq<u8> {
        self.cells@
    }
}

/// After stamping, each of the four cells holds the color, and every index that is
/// none of theirs keeps its value.
pub proof fn lemma_stamp(f: Seq<u8>, cs: Seq<(int, int)>, color: u8)
    requires
        f.len() == SIZE,
        cells_in_grid(cs),
    ensures
        stamp(f, cs, color).len() == SIZE,
        forall|i: int| 0 <= i < 4 ==> #[trigger] cell_at(stamp(f, cs, color), cs[i].0, cs[i].1) == color,
        forall|j: int|
            0 <= j < SIZE && (forall|i: int| 0 <= i < 4 ==> j != index_of(#[trigger] cs[i].0, cs[i].1))
                ==> #[trigger] stamp(f, cs, color)[j] == f[j],
{
    assert(in_grid(cs[0].0, cs[0].1));
    assert(in_grid(cs[1].0, cs[1].1));
    assert(in_grid(cs[2].0, cs[2].1));
    assert(in_grid(cs[3].0, cs[3].1));
    assert forall|j: int|
        0 <= j < SIZE && (forall|i: int| 0 <= i < 4 ==> j != index_of(#[trigger] cs[i].0, cs[i].1))
            implies #[trigger] stamp(f, cs, color)[j] == f[j] by {
        assert(j != index_of(cs[0].0, cs[0].1));
        assert(j != index_of(cs[1].0, cs[1].1));
        assert(j != index_of(cs[2].0, cs[2].1));
        assert(j != index_of(cs[3].0, cs[3].1));
    }
}

impl Playfield {
    /// The grid has its full size and holds only empty cells or colors below 7.
    pub open spec fn wf(&self) -> bool {
        &&& self@.len() == SIZE
        &&& forall|i: int| 0 <= i < SIZE ==> #[trigger] self@[i] < 7
    }

    /// An empty grid.
    pub fn new() -> (r: Playfield)
        ensures
            r.wf(),
            forall|i: int| 0 <= i < SIZE ==> #[trigger] r@[i] == 0,
    {
        let mut cells: Vec<u8> = Vec::new();
        let mut i: usize = 0;
        while i < SIZE
            invariant
                i <= SIZE,
                cells@.len() == i,
                forall|j: int| 0 <= j < i ==> #[trigger] cells@[j] == 0,
            decreases SIZE - i,
        {
            cells.push(0);
            i = i + 1;
        }
        Playfield { cells }
    }

    /// Number of cells, hidden rows included.
    pub fn len(&self) -> (r: usize)
        ensures
            r == self@.len(),
    {
        self.cells.len()
    }

    /// The value at row-major index `i`.
    pub fn cell(&self, i: usize) -> (r: u8)
        requires
            i < self@.len(),
        ensures
            r == self@[i as int],
    {
        self.cells[i]
    }

    /// The value at cell `(x, y)`.
    pub fn get(&self, x: usize, y: usize) -> (r: u8)
        requires
            self.wf(),
            in_grid(x as int, y as int),
        ensures
            r == cell_at(self@, x as int, y as int),
    {
        self.cells[x + y * WIDTH]
    }

    /// Whether cell `(x, y)` holds a locked block.
    pub fn is_occupied(&self, x: usize, y: usize) -> (r: bool)
        requires
            self.wf(),
            in_grid(x as int, y as int),
        ensures
            r == occupied(self@, x as int, y as int),
    {
        self.get(x, y) != 0
    }

    /// Writes the color of `p` into its four cells.
    pub fn lock(&mut self, p: &Piece)
        requires
            old(self).wf(),
            cells_in_grid(coords(*p)),
            p.color < 7,
        ensures
            final(self).wf(),
            final(self)@ == stamp(old(self)@, coords(*p), p.color),
    {
        proof {
            let cs = coords(*p);
            assert(in_grid(cs[0].0, cs[0].1));
            assert(in_grid(cs[1].0, cs[1].1));
            assert(in_grid(cs[2].0, cs[2].1));
            assert(in_grid(cs[3].0, cs[3].1));
        }
        let (x0, y0) = p.cells[0];
        let (x1, y1) = p.cells[1];
        let (x2, y2) = p.cells[2];
        let (x3, y3) = p.cells[3];
        self.cells.set(x0 + y0 * WIDTH, p.color);
        self.cells.set(x1 + y1 * WIDTH, p.color);
        self.cells.set(x2 + y2 * WIDTH, p.color);
        self.cells.set(x3 + y3 * WIDTH, p.color);
    }
}

} // verus!
