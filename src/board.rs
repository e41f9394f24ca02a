use vstd::prelude::*;

verus! {

/// Number of columns of a board.
pub const BOARD_WIDTH: usize = 32;

/// Number of rows of a board.
pub const BOARD_HEIGHT: usize = 16;

/// Bytes that hold one row: eight horizontally adjacent cells per byte.
pub const ROW_BYTES: usize = 4;

/// Bytes that hold a whole board, row after row.
pub const BOARD_BYTES: usize = 64;

/// Whether bit `i` of `b` is set.
pub open spec fn bit_of(b: u8, i: u8) -> bool {
    (b >> i) & 1u8 == 1u8
}

/// Position of the byte that holds cell `(col, row)`.
pub open spec fn byte_index(col: int, row: int) -> int {
    row * ROW_BYTES as int + col / 8
}

/// Whether `(col, row)` lies on the board.
pub open spec fn in_board(col: int, row: int) -> bool {
    0 <= col < BOARD_WIDTH as int && 0 <= row < BOARD_HEIGHT as int
}

/// Position of cell `(col, row)` when the cells are listed row after row.
pub open spec fn cell_index(col: int, row: int) -> int {
    row * BOARD_WIDTH as int + col
}

/// Whether cell `(col, row)` is alive in the packed bytes `bytes`:
/// bit `col % 8` of byte `col / 8` of row `row`.
pub open spec fn cell(bytes: Seq<u8>, col: int, row: int) -> bool {
    bit_of(bytes[byte_index(col, row)], (col % 8) as u8)
}

/// `bytes` with cell `(col, row)` set to `v` and every other bit kept.
pub open spec fn with_cell(bytes: Seq<u8>, col: int, row: int, v: bool) -> Seq<u8> {
    let b = bytes[byte_index(col, row)];
    let mask = 1u8 << ((col % 8) as u8);
    bytes.update(byte_index(col, row), if v { b | mask } else { b & !mask })
}

proof fn lemma_or_mask(b: u8, i: u8, j: u8)
    requires
        i < 8,
        j < 8,
    ensures
        bit_of(b | (1u8 << i), i),
        j != i ==> bit_of(b | (1u8 << i), j) == bit_of(b, j),
{
    assert(bit_of(b | (1u8 << i), i)) by (bit_vector)
        requires
            i < 8,
    ;
    assert(j != i ==> bit_of(b | (1u8 << i), j) == bit_of(b, j)) by (bit_vector)
        requires
            i < 8,
            j < 8,
    ;
}

proof fn lemma_and_not_mask(b: u8, i: u8, j: u8)
    requires
        i < 8,
        j < 8,
    ensures
        !bit_of(b & !(1u8 << i), i),
        j != i ==> bit_of(b & !(1u8 << i), j) == bit_of(b, j),
{
    assert(!bit_of(b & !(1u8 << i), i)) by (bit_vector)
        requires
            i < 8,
    ;
    assert(j != i ==> bit_of(b & !(1u8 << i), j) == bit_of(b, j)) by (bit_vector)
        requires
            i < 8,
            j < 8,
    ;
}

/// Setting a cell and reading it back gives the value that was set, and every
/// other cell of the board keeps its state.
pub proof fn lemma_set_then_get(bytes: Seq<u8>, col: int, row: int, v: bool)
    requires
        bytes.len() == BOARD_BYTES,
        in_board(col, row),
    ensures
        with_cell(bytes, col, row, v).len() == BOARD_BYTES,
        cell(with_cell(bytes, col, row, v), col, row) == v,
        forall|c: int, r: int|
            in_board(c, r) && (c, r) != (col, row) ==> #[trigger] cell(
                with_cell(bytes, col, row, v),
                c,
                r,
            ) == cell(bytes, c, r),
{
    let i = (col % 8) as u8;
    let b = bytes[byte_index(col, row)];
    lemma_or_mask(b, i, i);
    lemma_and_not_mask(b, i, i);
    assert forall|c: int, r: int|
        in_board(c, r) && (c, r) != (col, row) implies #[trigger] cell(
            with_cell(bytes, col, row, v),
            c,
            r,
        ) == cell(bytes, c, r) by {
        if byte_index(c, r) == byte_index(col, row) {
            lemma_or_mask(b, i, (c % 8) as u8);
            lemma_and_not_mask(b, i, (c % 8) as u8);
        }
    }
}

/// A board: `BOARD_HEIGHT` rows of `ROW_BYTES` bytes, one bit per cell.
#[derive(Clone, Debug, PartialEq, Eq)]
pub struct BoardState {
    pub bytes: Vec<u8>,
}

impl BoardState {
    /// The packed bytes have the size of a whole board.
    pub open spec fn wf(&self) -> bool {
        self.bytes@.len() == BOARD_BYTES
    }

    /// Whether cell `(col, row)` of this board is alive.
    pub open spec fn alive(&self, col: int, row: int) -> bool {
        cell(self.bytes@, col, row)
    }

    /// A board on which every cell is dead.
    pub fn new() -> (r: BoardState)
        ensures
            r.wf(),
            forall|i: int| 0 <= i < BOARD_BYTES ==> r.bytes@[i] == 0u8,
    {
        BoardState { bytes: vec![0u8; BOARD_BYTES] }
    }

    /// A board from its packed bytes, row after row; `None` unless there are
    /// exactly `BOARD_BYTES` of them.
    pub fn from_bytes(bytes: Vec<u8>) -> (r: Option<BoardState>)
        ensures
            r.is_some() <==> bytes@.len() == BOARD_BYTES,
            r.is_some() ==> r.unwrap().bytes@ == bytes@,
    {
        if bytes.len() == BOARD_BYTES {
            Some(BoardState { bytes })
        } else {
            None
        }
    }

    /// The board whose cell `(col, row)` is `cells[cell_index(col, row)]`.
    pub fn from_cells(cells: &Vec<bool>) -> (r: BoardState)
        requires
            cells@.len() == BOARD_WIDTH * BOARD_HEIGHT,
        ensures
            r.wf(),
            forall|c: int, r2: int|
                in_board(c, r2) ==> #[trigger] r.alive(c, r2) == cells@[cell_index(c, r2)],
    {
        let mut board = BoardState::new();
        let mut row: usize = 0;
        while row < BOARD_HEIGHT
            invariant
                board.wf(),
                row <= BOARD_HEIGHT,
                cells@.len() == BOARD_WIDTH * BOARD_HEIGHT,
                forall|c: int, r2: int|
                    in_board(c, r2) && r2 < row ==> #[trigger] board.alive(c, r2)
                        == cells@[cell_index(c, r2)],
            decreases BOARD_HEIGHT - row,
        {
            let mut col: usize = 0;
            while col < BOARD_WIDTH
                invariant
                    board.wf(),
                    row < BOARD_HEIGHT,
                    col <= BOARD_WIDTH,
                    cells@.len() == BOARD_WIDTH * BOARD_HEIGHT,
                    forall|c: int, r2: int|
                        in_board(c, r2) && (r2 < row || (r2 == row && c < col))
                            ==> #[trigger] board.alive(c, r2) == cells@[cell_index(c, r2)],
                decreases BOARD_WIDTH - col,
            {
                let v = cells[row * BOARD_WIDTH + col];
                proof {
                    lemma_set_then_get(board.bytes@, col as int, row as int, v);
                }
                let ghost before = board;
                set_cell(&mut board, col, row, v);
                assert forall|c: int, r2: int|
                    in_board(c, r2) && (r2 < row || (r2 == row && c <= col)) implies
                        #[trigger] board.alive(c, r2) == cells@[cell_index(c, r2)] by {
                    if (c, r2) != (col as int, row as int) {
                        assert(board.alive(c, r2) == before.alive(c, r2));
                    }
                }
                col = col + 1;
            }
            row = row + 1;
        }
        board
    }

    /// The packed bytes, row after row.
    pub fn to_bytes(&self) -> (r: Vec<u8>)
        ensures
            r@ == self.bytes@,
    {
        self.bytes.clone()
    }
}

/// Whether cell `(col, row)` is alive.
pub fn get_cell(state: &BoardState, col: usize, row: usize) -> (r: bool)
    requires
        state.wf(),
        in_board(col as int, row as int),
    ensures
        r == state.alive(col as int, row as int),
{
    let shift = (col % 8) as u8;
    let b = state.bytes[row * ROW_BYTES + col / 8];
    (b >> shift) & 1u8 == 1u8
}

/// Sets cell `(col, row)` to `val`, leaving every other cell as it was.
pub fn set_cell(state: &mut BoardState, col: usize, row: usize, val: bool)
    requires
        old(state).wf(),
        in_board(col as int, row as int),
    ensures
        final(state).bytes@ == with_cell(old(state).bytes@, col as int, row as int, val),
        final(state).wf(),
{
    let idx = row * ROW_BYTES + col / 8;
    let mask = 1u8 << ((col % 8) as u8);
    let b = state.bytes[idx];
    if val {
        state.bytes.set(idx, b | mask);
    } else {
        state.bytes.set(idx, b & !mask);
    }
}

/// Flips cell `(col, row)`, leaving every other cell as it was.
pub fn toggle_cell(state: &mut BoardState, col: usize, row: usize)
    requires
        old(state).wf(),
        in_board(col as int, row as int),
    ensures
        final(state).bytes@ == with_cell(
            old(state).bytes@,
            col as int,
            row as int,
            !old(state).alive(col as int, row as int),
        ),
        final(state).wf(),
{
    let v = get_cell(state, col, row);
    set_cell(state, col, row, !v);
}

} // verus!
