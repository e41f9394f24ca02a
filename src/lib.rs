//! Conway's Game of Life on a fixed-size, bit-packed board, with a clamped
//! (non-wrapping) neighbourhood, a double-buffered generation step and the
//! decisions of a two-phase plugin lifecycle.

pub mod board;
pub mod display_buffer;
pub mod life;
pub mod lifecycle;
pub mod seed;

pub use board::{
    get_cell, set_cell, toggle_cell, BoardState, BOARD_BYTES, BOARD_HEIGHT, BOARD_WIDTH,
    ROW_BYTES,
};
pub use display_buffer::DisplayBuffer;
pub use life::{neighbors_alive, step};
pub use lifecycle::{advance, advance_state, initial_state, setup_state, Frame, LifeError, LifeState};
pub use seed::{random_board, seed_board, ALIVE_DRAW, DRAW_RANGE, SEED_DRAWS};
