use vstd::prelude::*;
use crate::piece::{coords, is_shape, shape_code, valid_color, Piece};
use crate::playfield::{cell_at, in_grid, lemma_stamp, occupied, stamp, Playfield, HEIGHT, WIDTH};

verus! {

/// Milliseconds between two steps.
pub const DELAY_MS: u64 = 500;
/// Milliseconds between two steps while the down control is held.
pub const QUICK_DELAY_MS: u64 = 200;

/// The step interval in force.
pub open spec fn interval(down: bool) -> int {
    if down {
        QUICK_DELAY_MS as int
    } else {
        DELAY_MS as int
    }
}

/// `p` has a generator color and every cell lies on the grid above the bottom row,
/// so that one step of gravity keeps it on the grid.
pub open spec fn piece_fits(p: Piece) -> bool {
    &&& valid_color(p.color as int)
    &&& forall|i: int|
        0 <= i < 4 ==> #[trigger] coords(p)[i].0 < WIDTH && coords(p)[i].1 + 1 < HEIGHT
}

/// Every cell of `p` may move one column left (if `left`) and one column right
/// (if `right`): the target column is on the grid and the target cell is empty.
pub open spec fn lateral_ok(f: Seq<u8>, p: Piece, left: bool, right: bool) -> bool {
    forall|i: int|
        0 <= i < 4 ==> {
            &&& (left ==> #[trigger] coords(p)[i].0 >= 1 && !occupied(
                f,
                coords(p)[i].0 - 1,
                coords(p)[i].1,
            ))
            &&& (right ==> coords(p)[i].0 + 1 < WIDTH && !occupied(
                f,
                coords(p)[i].0 + 1,
                coords(p)[i].1,
            ))
        }
}

/// The column shift the held controls ask for; both held cancel out.
pub open spec fn requested_dx(left: bool, right: bool) -> int {
    (if right {
        1int
    } else {
        0int
    }) - (if left {
        1int
    } else {
        0int
    })
}

/// The column shift applied: the requested one, or none when any cell may not move.
pub open spec fn lateral_dx(f: Seq<u8>, p: Piece, left: bool, right: bool) -> int {
    if lateral_ok(f, p, left, right) {
        requested_dx(left, right)
    } else {
        0
    }
}

/// The four cells moved by `dx` columns and `dy` rows.
pub open spec fn offset(cs: Seq<(int, int)>, dx: int, dy: int) -> Seq<(int, int)> {
    Seq::new(4, |i: int| (cs[i].0 + dx, cs[i].1 + dy))
}

/// Where the cells of `p` stand after the lateral attempt and one row of gravity.
pub open spec fn fallen(f: Seq<u8>, p: Piece, left: bool, right: bool) -> Seq<(int, int)> {
    offset(coords(p), lateral_dx(f, p, left, right), 1)
}

/// Some cell is on the bottom row or right above a locked block.
pub open spec fn lands(f: Seq<u8>, cs: Seq<(int, int)>) -> bool {
    exists|i: int|
        0 <= i < 4 && (#[trigger] cs[i].1 + 1 >= HEIGHT || occupied(f, cs[i].0, cs[i].1 + 1))
}

/// Some cell of `p` is already occupied in `f`.
pub open spec fn blocked(f: Seq<u8>, p: Piece) -> bool {
    exists|i: int| 0 <= i < 4 && occupied(f, #[trigger] coords(p)[i].0, coords(p)[i].1)
}

/// The simulation state: the grid of locked blocks, the falling piece, the piece
/// that comes after it, the milliseconds gathered since the last step, and whether
/// a piece was promoted into occupied cells, which ends the game.
pub struct Game {
    pub field: Playfield,
    pub current: Piece,
    pub next: Piece,
    pub timer: u64,
    pub over: bool,
}

/// Two states agree on everything the step reads or writes.
pub open spec fn same_state(g0: Game, g1: Game) -> bool {
    &&& g1.field@ == g0.field@
    &&& g1.current == g0.current
    &&& g1.next == g0.next
    &&& g1.timer == g0.timer
    &&& g1.over == g0.over
}

/// `g1` is `g0` after one tick of `dt` milliseconds with the given controls held,
/// where `draw` is the generator's color for a piece that a lock calls for.
pub open spec fn stepped(
    g0: Game,
    g1: Game,
    dt: int,
    down: bool,
    left: bool,
    right: bool,
    draw: int,
) -> bool {
    if g0.over {
        same_state(g0, g1)
    } else if g0.timer + dt <= interval(down) {
        &&& g1.field@ == g0.field@
        &&& g1.current == g0.current
        &&& g1.next == g0.next
        &&& g1.timer == g0.timer + dt
        &&& !g1.over
    } else {
        let cs = fallen(g0.field@, g0.current, left, right);
        &&& g1.timer == 0
        &&& if lands(g0.field@, cs) {
            &&& g1.field@ == stamp(g0.field@, cs, g0.current.color)
            &&& g1.current == g0.next
            &&& is_shape(g1.next, draw)
            &&& g1.over == blocked(g1.field@, g0.next)
        } else {
            &&& g1.field@ == g0.field@
            &&& coords(g1.current) == cs
            &&& g1.current.color == g0.current.color
            &&& g1.next == g0.next
            &&& !g1.over
        }
    }
}

/// Whether one cell at `(x, y)` may take the requested lateral move.
fn cell_may_shift(f: &Playfield, x: usize, y: usize, left: bool, right: bool) -> (r: bool)
    requires
        f.wf(),
        in_grid(x as int, y as int),
    ensures
        r == ((left ==> x >= 1 && !occupied(f@, x - 1, y as int)) && (right ==> x + 1 < WIDTH
            && !occupied(f@, x + 1, y as int))),
{
    if left && (x < 1 || f.is_occupied(x - 1, y)) {
        return false;
    }
    if right && (x + 1 >= WIDTH || f.is_occupied(x + 1, y)) {
        return false;
    }
    true
}

/// Whether one cell at `(x, y)` stands on the bottom row or right above a block.
fn cell_lands(f: &Playfield, x: usize, y: usize) -> (r: bool)
    requires
        f.wf(),
        in_grid(x as int, y as int),
    ensures
        r == (y + 1 >= HEIGHT || occupied(f@, x as int, y + 1)),
{
    y + 1 >= HEIGHT || f.is_occupied(x, y + 1)
}

/// Whether every cell of `p` may take the requested lateral move.
fn may_shift(f: &Playfield, p: &Piece, left: bool, right: bool) -> (r: bool)
    requires
        f.wf(),
        piece_fits(*p),
    ensures
        r == lateral_ok(f@, *p, left, right),
{
    proof {
        assert(coords(*p)[0].0 < WIDTH && coords(*p)[0].1 + 1 < HEIGHT);
        assert(coords(*p)[1].0 < WIDTH && coords(*p)[1].1 + 1 < HEIGHT);
        assert(coords(*p)[2].0 < WIDTH && coords(*p)[2].1 + 1 < HEIGHT);
        assert(coords(*p)[3].0 < WIDTH && coords(*p)[3].1 + 1 < HEIGHT);
    }
    let a = cell_may_shift(f, p.cells[0].0, p.cells[0].1, left, right);
    let b = cell_may_shift(f, p.cells[1].0, p.cells[1].1, left, right);
    let c = cell_may_shift(f, p.cells[2].0, p.cells[2].1, left, right);
    let d = cell_may_shift(f, p.cells[3].0, p.cells[3].1, left, right);
    proof {
        if !(a && b && c && d) {
            let k: int = if !a { 0 } else if !b { 1 } else if !c { 2 } else { 3 };
            assert(!((left ==> coords(*p)[k].0 >= 1 && !occupied(f@, coords(*p)[k].0 - 1, coords(*p)[k].1))
                && (right ==> coords(*p)[k].0 + 1 < WIDTH && !occupied(f@, coords(*p)[k].0 + 1, coords(*p)[k].1))));
        }
    }
    a && b && c && d
}

/// One cell moved by the applied lateral shift and one row down.
fn move_cell(c: (usize, usize), go_left: bool, go_right: bool) -> (r: (usize, usize))
    requires
        go_left ==> c.0 >= 1,
        go_right ==> c.0 + 1 < WIDTH,
        !(go_left && go_right),
        c.1 + 1 < HEIGHT,
    ensures
        r.0 == c.0 + (if go_right { 1int } else { 0int }) - (if go_left { 1int } else { 0int }),
        r.1 == c.1 + 1,
{
    let x = if go_left {
        c.0 - 1
    } else if go_right {
        c.0 + 1
    } else {
        c.0
    };
    (x, c.1 + 1)
}

/// `p` after the lateral attempt and one row of gravity.
fn fall(f: &Playfield, p: &Piece, left: bool, right: bool) -> (r: Piece)
    requires
        f.wf(),
        piece_fits(*p),
    ensures
        coords(r) == fallen(f@, *p, left, right),
        r.color == p.color,
        forall|i: int| 0 <= i < 4 ==> #[trigger] coords(r)[i].0 < WIDTH && coords(r)[i].1 < HEIGHT,
{
    let ok = may_shift(f, p, left, right);
    let go_left = ok && left && !right;
    let go_right = ok && right && !left;
    proof {
        assert(coords(*p)[0].0 < WIDTH && coords(*p)[0].1 + 1 < HEIGHT);
        assert(coords(*p)[1].0 < WIDTH && coords(*p)[1].1 + 1 < HEIGHT);
        assert(coords(*p)[2].0 < WIDTH && coords(*p)[2].1 + 1 < HEIGHT);
        assert(coords(*p)[3].0 < WIDTH && coords(*p)[3].1 + 1 < HEIGHT);
    }
    let r = Piece {
        cells: [
            move_cell(p.cells[0], go_left, go_right),
            move_cell(p.cells[1], go_left, go_right),
            move_cell(p.cells[2], go_left, go_right),
            move_cell(p.cells[3], go_left, go_right),
        ],
        color: p.color,
    };
    assert(coords(r) =~= fallen(f@, *p, left, right));
    r
}

/// Whether the piece at cells `p` lands.
fn lands_at(f: &Playfield, p: &Piece) -> (r: bool)
    requires
        f.wf(),
        forall|i: int| 0 <= i < 4 ==> #[trigger] coords(*p)[i].0 < WIDTH && coords(*p)[i].1 < HEIGHT,
    ensures
        r == lands(f@, coords(*p)),
{
    proof {
        assert(coords(*p)[0].0 < WIDTH && coords(*p)[0].1 < HEIGHT);
        assert(coords(*p)[1].0 < WIDTH && coords(*p)[1].1 < HEIGHT);
        assert(coords(*p)[2].0 < WIDTH && coords(*p)[2].1 < HEIGHT);
        assert(coords(*p)[3].0 < WIDTH && coords(*p)[3].1 < HEIGHT);
    }
    let a = cell_lands(f, p.cells[0].0, p.cells[0].1);
    let b = cell_lands(f, p.cells[1].0, p.cells[1].1);
    let c = cell_lands(f, p.cells[2].0, p.cells[2].1);
    let d = cell_lands(f, p.cells[3].0, p.cells[3].1);
    proof {
        let cs = coords(*p);
        if a {
            assert(cs[0].1 + 1 >= HEIGHT || occupied(f@, cs[0].0, cs[0].1 + 1));
        } else if b {
            assert(cs[1].1 + 1 >= HEIGHT || occupied(f@, cs[1].0, cs[1].1 + 1));
        } else if c {
            assert(cs[2].1 + 1 >= HEIGHT || occupied(f@, cs[2].0, cs[2].1 + 1));
        } else if d {
            assert(cs[3].1 + 1 >= HEIGHT || occupied(f@, cs[3].0, cs[3].1 + 1));
        }
    }
    a || b || c || d
}

/// Whether some cell of `p` is already occupied.
fn blocked_at(f: &Playfield, p: &Piece) -> (r: bool)
    requires
        f.wf(),
        piece_fits(*p),
    ensures
        r == blocked(f@, *p),
{
    proof {
        assert(coords(*p)[0].0 < WIDTH && coords(*p)[0].1 + 1 < HEIGHT);
        assert(coords(*p)[1].0 < WIDTH && coords(*p)[1].1 + 1 < HEIGHT);
        assert(coords(*p)[2].0 < WIDTH && coords(*p)[2].1 + 1 < HEIGHT);
        assert(coords(*p)[3].0 < WIDTH && coords(*p)[3].1 + 1 < HEIGHT);
    }
    let a = f.is_occupied(p.cells[0].0, p.cells[0].1);
    let b = f.is_occupied(p.cells[1].0, p.cells[1].1);
    let c = f.is_occupied(p.cells[2].0, p.cells[2].1);
    let d = f.is_occupied(p.cells[3].0, p.cells[3].1);
    proof {
        let cs = coords(*p);
        if a {
            assert(occupied(f@, cs[0].0, cs[0].1));
        } else if b {
            assert(occupied(f@, cs[1].0, cs[1].1));
        } else if c {
            assert(occupied(f@, cs[2].0, cs[2].1));
        } else if d {
            assert(occupied(f@, cs[3].0, cs[3].1));
        }
    }
    a || b || c || d
}

impl Game {
    /// The field is well formed, both pieces fit, and the timer never holds more
    /// than the longer interval.
    pub open spec fn wf(&self) -> bool {
        &&& self.field.wf()
        &&& piece_fits(self.current)
        &&& piece_fits(self.next)
        &&& self.timer <= DELAY_MS
    }

    /// A game on an empty field with shape `first` falling and shape `second` next.
    pub fn new(first: u8, second: u8) -> (r: Game)
        requires
            valid_color(first as int),
            valid_color(second as int),
        ensures
            r.wf(),
            forall|i: int| 0 <= i < r.field@.len() ==> #[trigger] r.field@[i] == 0,
            is_shape(r.current, first as int),
            is_shape(r.next, second as int),
            r.timer == 0,
            !r.over,
    {
        let current = Piece::from_index(first);
        let next = Piece::from_index(second);
        proof {
            lemma_shape_fits(current, first as int);
            lemma_shape_fits(next, second as int);
        }
        Game { field: Playfield::new(), current, next, timer: 0, over: false }
    }

    /// Whether the next tick of `dt` milliseconds with these controls locks the
    /// falling piece, and so calls for a new next piece.
    pub fn will_lock(&self, dt: u64, down: bool, left: bool, right: bool) -> (r: bool)
        requires
            self.wf(),
        ensures
            r == (!self.over && self.timer + dt > interval(down) && lands(
                self.field@,
                fallen(self.field@, self.current, left, right),
            )),
    {
        if self.over {
            return false;
        }
        let delay = if down {
            QUICK_DELAY_MS
        } else {
            DELAY_MS
        };
        let exceeded = if self.timer > delay {
            true
        } else {
            dt > delay - self.timer
        };
        if !exceeded {
            return false;
        }
        let moved = fall(&self.field, &self.current, left, right);
        lands_at(&self.field, &moved)
    }

    /// Advances the simulation by `dt` milliseconds with the given controls held.
    /// `up` is read and has no effect. Once the timer passes the interval, the
    /// piece tries its lateral move, falls one row, and locks if it landed; the
    /// next piece then becomes the falling one and shape `draw` becomes the next.
    pub fn update(&mut self, dt: u64, up: bool, down: bool, left: bool, right: bool, draw: u8)
        requires
            old(self).wf(),
            valid_color(draw as int),
        ensures
            final(self).wf(),
            stepped(*old(self), *final(self), dt as int, down, left, right, draw as int),
    {
        if self.over {
            return;
        }
        let delay = if down {
            QUICK_DELAY_MS
        } else {
            DELAY_MS
        };
        let exceeded = if self.timer > delay {
            true
        } else {
            dt > delay - self.timer
        };
        if !exceeded {
            self.timer = self.timer + dt;
            return;
        }
        let moved = fall(&self.field, &self.current, left, right);
        if lands_at(&self.field, &moved) {
            proof {
                assert(in_grid(coords(moved)[0].0, coords(moved)[0].1));
                assert(in_grid(coords(moved)[1].0, coords(moved)[1].1));
                assert(in_grid(coords(moved)[2].0, coords(moved)[2].1));
                assert(in_grid(coords(moved)[3].0, coords(moved)[3].1));
            }
            self.field.lock(&moved);
            self.current = self.next;
            self.next = Piece::from_index(draw);
            proof {
                lemma_shape_fits(self.next, draw as int);
            }
            self.over = blocked_at(&self.field, &self.current);
        } else {
            proof {
                let cs = coords(moved);
                assert forall|i: int| 0 <= i < 4 implies #[trigger] coords(moved)[i].1 + 1 < HEIGHT by {
                    if !(cs[i].1 + 1 < HEIGHT) {
                        assert(cs[i].1 + 1 >= HEIGHT || occupied(self.field@, cs[i].0, cs[i].1 + 1));
                    }
                }
            }
            self.current = moved;
        }
        self.timer = 0;
    }
}

/// Before the interval has passed, a tick leaves the field and the falling piece as
/// they were.
pub proof fn lemma_idle_tick(
    g0: Game,
    g1: Game,
    dt: int,
    down: bool,
    left: bool,
    right: bool,
    draw: int,
)
    requires
        stepped(g0, g1, dt, down, left, right, draw),
        g0.timer + dt <= interval(down),
    ensures
        g1.field@ == g0.field@,
        g1.current == g0.current,
{
}

/// The lateral move is all or nothing: when any cell would leave the grid or enter
/// an occupied cell, no cell changes column; otherwise every cell moves by the
/// requested shift.
pub proof fn lemma_lateral_all_or_nothing(f: Seq<u8>, p: Piece, left: bool, right: bool)
    ensures
        (exists|i: int|
            0 <= i < 4 && ((left && (#[trigger] coords(p)[i].0 - 1 < 0 || occupied(
                f,
                coords(p)[i].0 - 1,
                coords(p)[i].1,
            ))) || (right && (coords(p)[i].0 + 1 >= WIDTH || occupied(
                f,
                coords(p)[i].0 + 1,
                coords(p)[i].1,
            ))))) ==> forall|i: int| 0 <= i < 4 ==> #[trigger] fallen(f, p, left, right)[i].0 == coords(p)[i].0,
        lateral_ok(f, p, left, right) ==> forall|i: int|
            0 <= i < 4 ==> #[trigger] fallen(f, p, left, right)[i].0 == coords(p)[i].0 + requested_dx(left, right),
{
}

/// Once the interval has passed, every cell of the falling piece goes down exactly
/// one row: the piece keeps falling there, or locks there.
pub proof fn lemma_gravity(
    g0: Game,
    g1: Game,
    dt: int,
    down: bool,
    left: bool,
    right: bool,
    draw: int,
)
    requires
        stepped(g0, g1, dt, down, left, right, draw),
        !g0.over,
        g0.timer + dt > interval(down),
    ensures
        forall|i: int|
            0 <= i < 4 ==> #[trigger] fallen(g0.field@, g0.current, left, right)[i].1 == coords(g0.current)[i].1 + 1,
        !lands(g0.field@, fallen(g0.field@, g0.current, left, right)) ==> forall|i: int|
            0 <= i < 4 ==> #[trigger] coords(g1.current)[i].1 == coords(g0.current)[i].1 + 1,
        lands(g0.field@, fallen(g0.field@, g0.current, left, right)) ==> g1.field@ == stamp(
            g0.field@,
            fallen(g0.field@, g0.current, left, right),
            g0.current.color,
        ),
        g1.timer == 0,
{
}

/// A lock writes the piece's color into its four landed cells, promotes the next
/// piece, and draws a next piece whose color lies in `[1, 7)`.
pub proof fn lemma_lock(
    g0: Game,
    g1: Game,
    dt: int,
    down: bool,
    left: bool,
    right: bool,
    draw: int,
)
    requires
        g0.wf(),
        valid_color(draw),
        stepped(g0, g1, dt, down, left, right, draw),
        !g0.over,
        g0.timer + dt > interval(down),
        lands(g0.field@, fallen(g0.field@, g0.current, left, right)),
    ensures
        forall|i: int|
            0 <= i < 4 ==> #[trigger] cell_at(
                g1.field@,
                fallen(g0.field@, g0.current, left, right)[i].0,
                fallen(g0.field@, g0.current, left, right)[i].1,
            ) == g0.current.color,
        g1.current == g0.next,
        valid_color(g1.next.color as int),
{
    let cs = fallen(g0.field@, g0.current, left, right);
    assert forall|i: int| 0 <= i < 4 implies in_grid(#[trigger] cs[i].0, cs[i].1) by {
        assert(coords(g0.current)[i].0 < WIDTH && coords(g0.current)[i].1 + 1 < HEIGHT);
        if lateral_ok(g0.field@, g0.current, left, right) {
            assert(coords(g0.current)[i].0 >= 0);
        }
    }
    lemma_stamp(g0.field@, cs, g0.current.color);
}

/// A decoded shape fits on the grid: its cells lie in a 4x2 box at the top left.
pub proof fn lemma_shape_fits(p: Piece, k: int)
    requires
        valid_color(k),
        is_shape(p, k),
    ensures
        piece_fits(p),
{
    assert forall|i: int| 0 <= i < 4 implies #[trigger] coords(p)[i].0 < WIDTH && coords(p)[i].1 + 1 < HEIGHT by {
        assert(coords(p)[i] == (shape_code(k, i) / 2, shape_code(k, i) % 2));
        assert(0 <= shape_code(k, i) < 7);
    }
}

} // verus!
