use vstd::prelude::*;
use crate::board::{cell, cell_index, in_board, BoardState, BOARD_BYTES, BOARD_HEIGHT, BOARD_WIDTH};

verus! {

/// A screen-sized grid of pixels, one `bool` per pixel, that text is drawn
/// into before it is packed for the display.
#[derive(Clone, Debug, PartialEq, Eq)]
pub struct DisplayBuffer {
    data: Vec<bool>,
}

impl DisplayBuffer {
    /// The pixels, row after row.
    pub closed spec fn pixels(&self) -> Seq<bool> {
        self.data@
    }

    /// There is one pixel per cell of the screen.
    pub open spec fn wf(&self) -> bool {
        self.pixels().len() == BOARD_WIDTH * BOARD_HEIGHT
    }

    /// A buffer with every pixel off.
    pub fn new() -> (r: DisplayBuffer)
        ensures
            r.wf(),
            forall|i: int| 0 <= i < BOARD_WIDTH * BOARD_HEIGHT ==> !#[trigger] r.pixels()[i],
    {
        DisplayBuffer { data: vec![false; BOARD_WIDTH * BOARD_HEIGHT] }
    }

    /// The pixels packed as the display takes them: pixel `(x, y)` is bit
    /// `x % 8` of byte `y * ROW_BYTES + x / 8`.
    pub fn to_vec(self) -> (r: Vec<u8>)
        requires
            self.wf(),
        ensures
            r@.len() == BOARD_BYTES,
            forall|x: int, y: int|
                in_board(x, y) ==> #[trigger] cell(r@, x, y) == self.pixels()[cell_index(x, y)],
    {
        let b = BoardState::from_cells(&self.data);
        assert forall|x: int, y: int| in_board(x, y) implies #[trigger] cell(b.bytes@, x, y)
            == self.pixels()[cell_index(x, y)] by {
            assert(b.alive(x, y) == self.data@[cell_index(x, y)]);
        }
        b.bytes
    }

    /// Turns every pixel off.
    pub fn clear(&mut self)
        requires
            old(self).wf(),
        ensures
            final(self).wf(),
            forall|i: int|
                0 <= i < BOARD_WIDTH * BOARD_HEIGHT ==> !#[trigger] final(self).pixels()[i],
    {
        let mut i: usize = 0;
        while i < self.data.len()
            invariant
                self.data@.len() == BOARD_WIDTH * BOARD_HEIGHT,
                i <= self.data@.len(),
                forall|k: int| 0 <= k < i ==> !#[trigger] self.data@[k],
            decreases self.data@.len() - i,
        {
            self.data.set(i, false);
            i = i + 1;
        }
    }

    /// Sets pixel `(x, y)` on or off; a pixel with a negative coordinate lies
    /// off the screen and is skipped.
    pub fn set_pixel(&mut self, x: i32, y: i32, on: bool)
        requires
            old(self).wf(),
            x < BOARD_WIDTH,
            y < BOARD_HEIGHT,
        ensures
            final(self).wf(),
            final(self).pixels() == if x < 0 || y < 0 {
                old(self).pixels()
            } else {
                old(self).pixels().update(cell_index(x as int, y as int), on)
            },
    {
        if x < 0 || y < 0 {
            return;
        }
        let (col, row) = (x as usize, y as usize);
        self.data.set(row * BOARD_WIDTH + col, on);
    }

    /// Width and height of the screen, in pixels.
    pub fn size(&self) -> (r: (u32, u32))
        ensures
            r == (BOARD_WIDTH as u32, BOARD_HEIGHT as u32),
    {
        (BOARD_WIDTH as u32, BOARD_HEIGHT as u32)
    }
}

} // verus!
