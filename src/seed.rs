use vstd::prelude::*;
use rand::Rng;
use crate::board::{cell_index, in_board, BoardState};

verus! {

/// Draws for the initial board come from `0 .. DRAW_RANGE`.
pub const DRAW_RANGE: u32 = 4;

/// The one draw that makes a cell start alive: one chance in four.
pub const ALIVE_DRAW: u32 = 3;

/// Number of draws that seed a whole board, one per cell.
pub const SEED_DRAWS: usize = 512;

#[verifier::external_type_specification]
#[verifier::external_body]
pub struct ExThreadRng(rand::rngs::ThreadRng);

/// Relies on rand::thread_rng: hands out the thread-local generator, seeded
/// from the system's entropy; nothing is promised of its state.
pub assume_specification[ rand::thread_rng ]() -> rand::rngs::ThreadRng;

/// Relies on rand's Rng::gen_range: a draw from the non-empty range
/// `0 .. DRAW_RANGE` lies in that range.
#[verifier::external_body]
fn draw(rng: &mut rand::rngs::ThreadRng) -> (r: u32)
    ensures
        r < DRAW_RANGE,
{
    rng.gen_range(0..DRAW_RANGE)
}

/// The board that `draws` seed, taken in `cell_index` order (row after row,
/// and along a row byte after byte and bit after bit): a cell is alive exactly where its draw is
/// `ALIVE_DRAW`.
pub fn seed_board(draws: &Vec<u32>) -> (r: BoardState)
    requires
        draws@.len() == SEED_DRAWS,
    ensures
        r.wf(),
        forall|c: int, r2: int|
            in_board(c, r2) ==> #[trigger] r.alive(c, r2) == (draws@[cell_index(c, r2)]
                == ALIVE_DRAW),
{
    let mut cells: Vec<bool> = Vec::new();
    let mut i: usize = 0;
    while i < SEED_DRAWS
        invariant
            i <= SEED_DRAWS,
            draws@.len() == SEED_DRAWS,
            cells@.len() == i,
            forall|k: int| 0 <= k < i ==> #[trigger] cells@[k] == (draws@[k] == ALIVE_DRAW),
        decreases SEED_DRAWS - i,
    {
        cells.push(draws[i] == ALIVE_DRAW);
        i = i + 1;
    }
    BoardState::from_cells(&cells)
}

/// A freshly seeded board: each cell alive with one chance in four, drawn
/// from the thread-local generator. Whatever was drawn, the board is whole.
pub fn random_board() -> (r: BoardState)
    ensures
        r.wf(),
{
    let mut rng = rand::thread_rng();
    let mut draws: Vec<u32> = Vec::new();
    let mut i: usize = 0;
    while i < SEED_DRAWS
        invariant
            i <= SEED_DRAWS,
            draws@.len() == i,
            forall|k: int| 0 <= k < i ==> #[trigger] draws@[k] < DRAW_RANGE,
        decreases SEED_DRAWS - i,
    {
        let d = draw(&mut rng);
        draws.push(d);
        i = i + 1;
    }
    seed_board(&draws)
}

} // verus!
