use vstd::prelude::*;
use rand::rngs::StdRng;
use rand::{Rng, SeedableRng};
use crate::game::{lemma_shape_fits, stepped, Game};
use crate::piece::{distinct_cells, is_shape, valid_color, Piece, SHAPE_COUNT};

verus! {

/// The seedable random generator of the `rand` crate.
#[verifier::external_type_specification]
#[verifier::external_body]
pub struct ExStdRng(StdRng);

/// Relies on rand's `SeedableRng::seed_from_u64` for `StdRng`: a generator whose
/// stream is fixed by the seed.
#[verifier::external_body]
fn seeded(seed: u64) -> (r: StdRng) {
    StdRng::seed_from_u64(seed)
}

/// Relies on rand's `Rng::gen_range`: a value of the half-open range `1..7`
/// (the range is not empty, so the call does not panic).
#[verifier::external_body]
fn draw_color(rng: &mut StdRng) -> (r: u8)
    ensures
        1 <= r < 7,
{
    rng.gen_range(1u8..7u8)
}

/// Draws one color from `rng` and decodes the matching shape at its spawn place.
pub fn next_piece(rng: &mut StdRng) -> (r: Piece)
    ensures
        valid_color(r.color as int),
        is_shape(r, r.color as int),
        distinct_cells(r),
{
    let k = draw_color(rng);
    Piece::from_index(k)
}

/// A game together with the random stream that feeds its generator.
pub struct Tetris {
    pub game: Game,
    pub rng: StdRng,
}

impl Tetris {
    /// Well formed when the game is.
    pub open spec fn wf(&self) -> bool {
        self.game.wf()
    }

    /// A new game on an empty field, its two first pieces drawn from a stream
    /// seeded with `seed`.
    pub fn new(seed: u64) -> (r: Tetris)
        ensures
            r.wf(),
            forall|i: int| 0 <= i < r.game.field@.len() ==> #[trigger] r.game.field@[i] == 0,
            valid_color(r.game.current.color as int),
            is_shape(r.game.current, r.game.current.color as int),
            valid_color(r.game.next.color as int),
            is_shape(r.game.next, r.game.next.color as int),
            r.game.timer == 0,
            !r.game.over,
    {
        let mut rng = seeded(seed);
        let first = draw_color(&mut rng);
        let second = draw_color(&mut rng);
        Tetris { game: Game::new(first, second), rng }
    }

    /// One tick of the game: as `Game::update`, with the color of a new next piece
    /// drawn from the stream only when the falling piece locks.
    pub fn update(&mut self, dt: u64, up: bool, down: bool, left: bool, right: bool)
        requires
            old(self).wf(),
        ensures
            final(self).wf(),
            exists|k: int|
                valid_color(k) && stepped(
                    old(self).game,
                    final(self).game,
                    dt as int,
                    down,
                    left,
                    right,
                    k,
                ),
    {
        // Without a lock the step does not read `draw`; the stream is left untouched.
        let draw = if self.game.will_lock(dt, down, left, right) {
            draw_color(&mut self.rng)
        } else {
            self.game.next.color
        };
        self.game.update(dt, up, down, left, right, draw);
    }
}

} // verus!
