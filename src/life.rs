use vstd::prelude::*;
use crate::board::{
    bit_of, byte_index, cell, get_cell, in_board, lemma_set_then_get, set_cell, BoardState,
    BOARD_BYTES, BOARD_HEIGHT, BOARD_WIDTH,
};

verus! {

/// Lower end of the clamped neighbourhood along one axis.
pub open spec fn low_end(c: int) -> int {
    if c == 0 {
        0
    } else {
        c - 1
    }
}

/// Upper end (inclusive) of the clamped neighbourhood along an axis of `size`.
pub open spec fn high_end(c: int, size: int) -> int {
    if c + 1 < size {
        c + 1
    } else {
        size - 1
    }
}

/// 1 where `(x, y)` is alive and is not the centre `(col, row)`, else 0.
pub open spec fn neighbor_at(bytes: Seq<u8>, col: int, row: int, x: int, y: int) -> int {
    if (x, y) != (col, row) && cell(bytes, x, y) {
        1
    } else {
        0
    }
}

/// Live neighbours of `(col, row)` in column `x`, rows `y_lo .. y_end`.
pub open spec fn column_count(
    bytes: Seq<u8>,
    col: int,
    row: int,
    x: int,
    y_lo: int,
    y_end: int,
) -> int
    decreases y_end - y_lo,
{
    if y_end <= y_lo {
        0
    } else {
        column_count(bytes, col, row, x, y_lo, y_end - 1) + neighbor_at(bytes, col, row, x, y_end - 1)
    }
}

/// Live neighbours of `(col, row)` in columns `x_lo .. x_end`, rows `y_lo .. y_end`.
pub open spec fn box_count(
    bytes: Seq<u8>,
    col: int,
    row: int,
    x_lo: int,
    x_end: int,
    y_lo: int,
    y_end: int,
) -> int
    decreases x_end - x_lo,
{
    if x_end <= x_lo {
        0
    } else {
        box_count(bytes, col, row, x_lo, x_end - 1, y_lo, y_end) + column_count(
            bytes,
            col,
            row,
            x_end - 1,
            y_lo,
            y_end,
        )
    }
}

/// Live cells among the neighbours of `(col, row)`: the 3x3 box around it,
/// cut off at the board's edges (never wrapped), without the centre.
pub open spec fn neighbor_count(bytes: Seq<u8>, col: int, row: int) -> int {
    box_count(
        bytes,
        col,
        row,
        low_end(col),
        high_end(col, BOARD_WIDTH as int) + 1,
        low_end(row),
        high_end(row, BOARD_HEIGHT as int) + 1,
    )
}

/// Whether `(col, row)` is one of the four corners.
pub open spec fn is_corner(col: int, row: int) -> bool {
    (col == 0 || col == BOARD_WIDTH - 1) && (row == 0 || row == BOARD_HEIGHT - 1)
}

/// Whether `(col, row)` lies on an edge of the board but is no corner.
pub open spec fn is_side(col: int, row: int) -> bool {
    (col == 0 || col == BOARD_WIDTH - 1 || row == 0 || row == BOARD_HEIGHT - 1) && !is_corner(
        col,
        row,
    )
}

proof fn lemma_column_count_bound(
    bytes: Seq<u8>,
    col: int,
    row: int,
    x: int,
    y_lo: int,
    y_end: int,
)
    requires
        y_lo <= y_end,
    ensures
        0 <= column_count(bytes, col, row, x, y_lo, y_end) <= (y_end - y_lo) - (if x == col && y_lo
            <= row < y_end {
            1int
        } else {
            0int
        }),
    decreases y_end - y_lo,
{
    if y_end > y_lo {
        lemma_column_count_bound(bytes, col, row, x, y_lo, y_end - 1);
    }
}

proof fn lemma_box_count_bound(
    bytes: Seq<u8>,
    col: int,
    row: int,
    x_lo: int,
    x_end: int,
    y_lo: int,
    y_end: int,
)
    requires
        x_lo <= x_end,
        y_lo <= y_end,
    ensures
        0 <= box_count(bytes, col, row, x_lo, x_end, y_lo, y_end) <= (x_end - x_lo) * (y_end
            - y_lo) - (if x_lo <= col < x_end && y_lo <= row < y_end {
            1int
        } else {
            0int
        }),
    decreases x_end - x_lo,
{
    if x_end > x_lo {
        lemma_box_count_bound(bytes, col, row, x_lo, x_end - 1, y_lo, y_end);
        lemma_column_count_bound(bytes, col, row, x_end - 1, y_lo, y_end);
        let w = x_end - x_lo;
        let h = y_end - y_lo;
        assert((w - 1) * h + h == w * h) by (nonlinear_arith);
    } else {
        assert((x_end - x_lo) * (y_end - y_lo) == 0) by (nonlinear_arith)
            requires
                x_end == x_lo,
        ;
    }
}

/// A cell has at most eight live neighbours; a corner at most three, and a
/// cell on an edge that is no corner at most five.
pub proof fn lemma_neighbor_count_bounds(bytes: Seq<u8>, col: int, row: int)
    requires
        in_board(col, row),
    ensures
        0 <= neighbor_count(bytes, col, row) <= 8,
        is_corner(col, row) ==> neighbor_count(bytes, col, row) <= 3,
        is_side(col, row) ==> neighbor_count(bytes, col, row) <= 5,
{
    let x_lo = low_end(col);
    let x_end = high_end(col, BOARD_WIDTH as int) + 1;
    let y_lo = low_end(row);
    let y_end = high_end(row, BOARD_HEIGHT as int) + 1;
    lemma_box_count_bound(bytes, col, row, x_lo, x_end, y_lo, y_end);
    let w = x_end - x_lo;
    let h = y_end - y_lo;
    assert(2 <= w <= 3 && 2 <= h <= 3);
    assert(w * h <= 9) by (nonlinear_arith)
        requires
            2 <= w <= 3 && 2 <= h <= 3,
    ;
    if is_corner(col, row) {
        assert(w == 2 && h == 2);
        assert(w * h == 4) by (nonlinear_arith)
            requires
                w == 2 && h == 2,
        ;
    }
    if is_side(col, row) {
        assert(w * h == 6) by (nonlinear_arith)
            requires
                (w == 2 && h == 3) || (w == 3 && h == 2),
        ;
    }
}

/// The corner `(0, 0)` counts only the three cells beside it: with those dead
/// it has no live neighbour, whatever the cells on the opposite edges hold.
pub proof fn lemma_corner_not_wrapped(bytes: Seq<u8>)
    requires
        !cell(bytes, 1, 0),
        !cell(bytes, 0, 1),
        !cell(bytes, 1, 1),
    ensures
        neighbor_count(bytes, 0, 0) == 0,
{
    assert(neighbor_count(bytes, 0, 0) == box_count(bytes, 0, 0, 0, 2, 0, 2));
    reveal_with_fuel(box_count, 3);
    reveal_with_fuel(column_count, 3);
}

/// Number of live neighbours of `(col, row)`, over the clamped 3x3 box.
pub fn neighbors_alive(state: &BoardState, col: usize, row: usize) -> (r: u8)
    requires
        state.wf(),
        in_board(col as int, row as int),
    ensures
        r as int == neighbor_count(state.bytes@, col as int, row as int),
        r <= 8,
        is_corner(col as int, row as int) ==> r <= 3,
        is_side(col as int, row as int) ==> r <= 5,
{
    let lower_x: usize = if col == 0 { 0 } else { col - 1 };
    let upper_x: usize = if col + 1 < BOARD_WIDTH { col + 1 } else { BOARD_WIDTH - 1 };
    let lower_y: usize = if row == 0 { 0 } else { row - 1 };
    let upper_y: usize = if row + 1 < BOARD_HEIGHT { row + 1 } else { BOARD_HEIGHT - 1 };
    let ghost bytes = state.bytes@;
    proof {
        lemma_neighbor_count_bounds(bytes, col as int, row as int);
    }
    let mut count: u8 = 0;
    let mut x: usize = lower_x;
    while x <= upper_x
        invariant
            state.wf(),
            bytes == state.bytes@,
            lower_x <= x <= upper_x + 1,
            upper_x < BOARD_WIDTH,
            lower_y <= upper_y < BOARD_HEIGHT,
            count as int == box_count(bytes, col as int, row as int, lower_x as int, x as int, lower_y as int, upper_y + 1),
            neighbor_count(bytes, col as int, row as int) <= 8,
            neighbor_count(bytes, col as int, row as int) == box_count(bytes, col as int, row as int, lower_x as int, upper_x + 1, lower_y as int, upper_y + 1),
        decreases upper_x + 1 - x,
    {
        let mut y: usize = lower_y;
        while y <= upper_y
            invariant
                state.wf(),
                bytes == state.bytes@,
                lower_x <= x <= upper_x,
                upper_x < BOARD_WIDTH,
                lower_y <= y <= upper_y + 1,
                upper_y < BOARD_HEIGHT,
                count as int == box_count(bytes, col as int, row as int, lower_x as int, x as int, lower_y as int, upper_y + 1)
                    + column_count(bytes, col as int, row as int, x as int, lower_y as int, y as int),
                neighbor_count(bytes, col as int, row as int) <= 8,
                neighbor_count(bytes, col as int, row as int) == box_count(bytes, col as int, row as int, lower_x as int, upper_x + 1, lower_y as int, upper_y + 1),
            decreases upper_y + 1 - y,
        {
            proof {
                lemma_column_count_bound(bytes, col as int, row as int, x as int, lower_y as int, y + 1);
                lemma_box_count_bound(bytes, col as int, row as int, lower_x as int, x as int, lower_y as int, upper_y + 1);
                lemma_box_count_bound(bytes, col as int, row as int, lower_x as int, x + 1, lower_y as int, upper_y + 1);
                lemma_box_monotone(bytes, col as int, row as int, lower_x as int, x + 1, upper_x + 1, lower_y as int, upper_y + 1);
                lemma_column_prefix(bytes, col as int, row as int, x as int, lower_y as int, y + 1, upper_y + 1);
            }
            if !(col == x && row == y) && get_cell(state, x, y) {
                count = count + 1;
            }
            y = y + 1;
        }
        x = x + 1;
    }
    count
}

proof fn lemma_column_prefix(
    bytes: Seq<u8>,
    col: int,
    row: int,
    x: int,
    y_lo: int,
    y_mid: int,
    y_end: int,
)
    requires
        y_lo <= y_mid <= y_end,
    ensures
        column_count(bytes, col, row, x, y_lo, y_mid) <= column_count(bytes, col, row, x, y_lo, y_end),
    decreases y_end - y_mid,
{
    if y_end > y_mid {
        lemma_column_prefix(bytes, col, row, x, y_lo, y_mid, y_end - 1);
    }
}

proof fn lemma_box_monotone(
    bytes: Seq<u8>,
    col: int,
    row: int,
    x_lo: int,
    x_mid: int,
    x_end: int,
    y_lo: int,
    y_end: int,
)
    requires
        x_lo <= x_mid <= x_end,
        y_lo <= y_end,
    ensures
        box_count(bytes, col, row, x_lo, x_mid, y_lo, y_end) <= box_count(bytes, col, row, x_lo, x_end, y_lo, y_end),
    decreases x_end - x_mid,
{
    if x_end > x_mid {
        lemma_box_monotone(bytes, col, row, x_lo, x_mid, x_end - 1, y_lo, y_end);
        lemma_column_count_bound(bytes, col, row, x_end - 1, y_lo, y_end);
    }
}

/// The transition rule: a live cell with two or three live neighbours stays
/// alive, a dead cell with exactly three comes alive, every other cell is dead.
pub open spec fn rule(alive: bool, n: int) -> bool {
    if alive {
        n == 2 || n == 3
    } else {
        n == 3
    }
}

/// Whether cell `(col, row)` is alive in the generation after `prev`.
pub open spec fn next_alive(prev: Seq<u8>, col: int, row: int) -> bool {
    rule(cell(prev, col, row), neighbor_count(prev, col, row))
}

/// Whether `next` is a whole board that holds the generation after `prev`.
pub open spec fn is_next_generation(next: Seq<u8>, prev: Seq<u8>) -> bool {
    &&& next.len() == BOARD_BYTES
    &&& forall|c: int, r: int| in_board(c, r) ==> #[trigger] cell(next, c, r) == next_alive(prev, c, r)
}

proof fn lemma_byte_from_bits(a: u8, b: u8)
    requires
        bit_of(a, 0) == bit_of(b, 0),
        bit_of(a, 1) == bit_of(b, 1),
        bit_of(a, 2) == bit_of(b, 2),
        bit_of(a, 3) == bit_of(b, 3),
        bit_of(a, 4) == bit_of(b, 4),
        bit_of(a, 5) == bit_of(b, 5),
        bit_of(a, 6) == bit_of(b, 6),
        bit_of(a, 7) == bit_of(b, 7),
    ensures
        a == b,
{
    assert(a == b) by (bit_vector)
        requires
            (a >> 0u8) & 1u8 == 1u8 <==> (b >> 0u8) & 1u8 == 1u8,
            (a >> 1u8) & 1u8 == 1u8 <==> (b >> 1u8) & 1u8 == 1u8,
            (a >> 2u8) & 1u8 == 1u8 <==> (b >> 2u8) & 1u8 == 1u8,
            (a >> 3u8) & 1u8 == 1u8 <==> (b >> 3u8) & 1u8 == 1u8,
            (a >> 4u8) & 1u8 == 1u8 <==> (b >> 4u8) & 1u8 == 1u8,
            (a >> 5u8) & 1u8 == 1u8 <==> (b >> 5u8) & 1u8 == 1u8,
            (a >> 6u8) & 1u8 == 1u8 <==> (b >> 6u8) & 1u8 == 1u8,
            (a >> 7u8) & 1u8 == 1u8 <==> (b >> 7u8) & 1u8 == 1u8,
    ;
}

proof fn lemma_bit_agrees(a: Seq<u8>, b: Seq<u8>, k: int, j: u8)
    requires
        a.len() == BOARD_BYTES,
        b.len() == BOARD_BYTES,
        forall|c: int, r: int| in_board(c, r) ==> #[trigger] cell(a, c, r) == cell(b, c, r),
        0 <= k < BOARD_BYTES,
        j < 8,
    ensures
        bit_of(a[k], j) == bit_of(b[k], j),
{
    let row = k / 4;
    let c = (k % 4) * 8 + j;
    assert(cell(a, c, row) == cell(b, c, row));
    assert(byte_index(c, row) == k);
    assert(c % 8 == j);
}

/// Two whole boards whose cells all agree hold the same bytes: every bit of
/// the packed layout is a cell.
pub proof fn lemma_cells_determine_bytes(a: Seq<u8>, b: Seq<u8>)
    requires
        a.len() == BOARD_BYTES,
        b.len() == BOARD_BYTES,
        forall|c: int, r: int| in_board(c, r) ==> #[trigger] cell(a, c, r) == cell(b, c, r),
    ensures
        a == b,
{
    assert forall|k: int| 0 <= k < BOARD_BYTES implies a[k] == b[k] by {
        lemma_bit_agrees(a, b, k, 0);
        lemma_bit_agrees(a, b, k, 1);
        lemma_bit_agrees(a, b, k, 2);
        lemma_bit_agrees(a, b, k, 3);
        lemma_bit_agrees(a, b, k, 4);
        lemma_bit_agrees(a, b, k, 5);
        lemma_bit_agrees(a, b, k, 6);
        lemma_bit_agrees(a, b, k, 7);
        lemma_byte_from_bits(a[k], b[k]);
    }
    assert(a =~= b);
}

/// The generation after a board is fixed by that board alone: any two results
/// of `step` from the same `prev`, whatever `next` held before, are equal.
pub proof fn lemma_step_deterministic(prev: Seq<u8>, n1: Seq<u8>, n2: Seq<u8>)
    requires
        is_next_generation(n1, prev),
        is_next_generation(n2, prev),
    ensures
        n1 == n2,
{
    lemma_cells_determine_bytes(n1, n2);
}

/// Writes into `next` the generation that follows `prev`; every cell of `next`
/// is overwritten and `prev` is only read.
pub fn step(next: &mut BoardState, prev: &BoardState)
    requires
        old(next).wf(),
        prev.wf(),
    ensures
        final(next).wf(),
        is_next_generation(final(next).bytes@, prev.bytes@),
{
    let mut col: usize = 0;
    while col < BOARD_WIDTH
        invariant
            next.wf(),
            prev.wf(),
            col <= BOARD_WIDTH,
            forall|c: int, r: int|
                in_board(c, r) && c < col ==> #[trigger] cell(next.bytes@, c, r) == next_alive(
                    prev.bytes@,
                    c,
                    r,
                ),
        decreases BOARD_WIDTH - col,
    {
        let mut row: usize = 0;
        while row < BOARD_HEIGHT
            invariant
                next.wf(),
                prev.wf(),
                col < BOARD_WIDTH,
                row <= BOARD_HEIGHT,
                forall|c: int, r: int|
                    in_board(c, r) && (c < col || (c == col && r < row)) ==> #[trigger] cell(
                        next.bytes@,
                        c,
                        r,
                    ) == next_alive(prev.bytes@, c, r),
            decreases BOARD_HEIGHT - row,
        {
            let alive = get_cell(prev, col, row);
            let n = neighbors_alive(prev, col, row);
            let val = if alive {
                n == 2 || n == 3
            } else {
                n == 3
            };
            proof {
                lemma_set_then_get(next.bytes@, col as int, row as int, val);
            }
            set_cell(next, col, row, val);
            row = row + 1;
        }
        col = col + 1;
    }
}

} // verus!
