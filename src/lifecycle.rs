use vstd::prelude::*;
use crate::board::{BoardState, BOARD_BYTES, BOARD_HEIGHT, BOARD_WIDTH};
use crate::life::{is_next_generation, step};
use crate::seed::random_board;

verus! {

/// The persisted pair of boards and the flag that says which one is shown.
#[derive(Clone, Debug, PartialEq, Eq)]
pub struct LifeState {
    pub state_a: BoardState,
    pub state_b: BoardState,
    pub show_state_a: bool,
}

/// Why a generation could not be advanced.
#[derive(Clone, Copy, Debug, PartialEq, Eq, Structural)]
pub enum LifeError {
    /// A board or the flag is absent from the store: nothing was initialised.
    MissingState,
}

/// What the display is handed in one invocation: a region at `(x, y)` of
/// `width` by `height` pixels, packed as the board is, and the rows to refresh.
#[derive(Clone, Debug, PartialEq, Eq)]
pub struct Frame {
    pub x: u32,
    pub y: u32,
    pub width: u32,
    pub height: u32,
    pub pixels: Vec<u8>,
    pub rows: Vec<u8>,
}

impl LifeState {
    /// Both boards are whole.
    pub open spec fn wf(&self) -> bool {
        self.state_a.wf() && self.state_b.wf()
    }

    /// The bytes of the board that the flag selects for display.
    pub open spec fn shown(&self) -> Seq<u8> {
        if self.show_state_a {
            self.state_a.bytes@
        } else {
            self.state_b.bytes@
        }
    }

    /// The bytes of the board that is not displayed, the next write target.
    pub open spec fn working(&self) -> Seq<u8> {
        if self.show_state_a {
            self.state_b.bytes@
        } else {
            self.state_a.bytes@
        }
    }
}

/// Whether `next` is what one generation makes of `prev`: the shown board is
/// kept as it was, the other one receives the generation after it, and the
/// flag turns over so that this new generation is shown next.
pub open spec fn is_advance_of(next: LifeState, prev: LifeState) -> bool {
    &&& next.wf()
    &&& next.show_state_a == !prev.show_state_a
    &&& next.working() == prev.shown()
    &&& is_next_generation(next.shown(), prev.shown())
}

/// The rows `0 .. BOARD_HEIGHT`, each to be refreshed.
pub open spec fn all_rows() -> Seq<u8> {
    Seq::new(BOARD_HEIGHT as nat, |i: int| i as u8)
}

/// Whether `f` covers the whole board from `(0, 0)` with the pixels `shown`
/// and asks for every row to be refreshed.
pub open spec fn is_full_frame(f: Frame, shown: Seq<u8>) -> bool {
    &&& f.x == 0 && f.y == 0
    &&& f.width == BOARD_WIDTH as u32 && f.height == BOARD_HEIGHT as u32
    &&& f.pixels@ == shown
    &&& f.rows@ == all_rows()
}

/// The state that the first invocation persists: `seeded` as board A, an
/// all-dead board B, and A selected for display.
pub fn initial_state(seeded: BoardState) -> (r: LifeState)
    requires
        seeded.wf(),
    ensures
        r.wf(),
        r.state_a == seeded,
        r.show_state_a,
        forall|i: int| 0 <= i < BOARD_BYTES ==> r.state_b.bytes@[i] == 0u8,
{
    LifeState { state_a: seeded, state_b: BoardState::new(), show_state_a: true }
}

/// The state of a first invocation, with board A freshly seeded at random.
pub fn setup_state() -> (r: LifeState)
    ensures
        r.wf(),
        r.show_state_a,
        forall|i: int| 0 <= i < BOARD_BYTES ==> r.state_b.bytes@[i] == 0u8,
{
    initial_state(random_board())
}

fn refresh_rows() -> (r: Vec<u8>)
    ensures
        r@ == all_rows(),
{
    let mut rows: Vec<u8> = Vec::new();
    let mut i: u8 = 0;
    while (i as usize) < BOARD_HEIGHT
        invariant
            i as usize <= BOARD_HEIGHT,
            rows@ == Seq::new(i as nat, |k: int| k as u8),
        decreases BOARD_HEIGHT - i as usize,
    {
        rows.push(i);
        i = i + 1;
    }
    assert(rows@ =~= all_rows());
    rows
}

/// One generation of a settled state: the frame that shows the current board,
/// and the state to persist, with the next generation written into the board
/// that was not shown and the flag turned over.
pub fn advance_state(state: LifeState) -> (r: (Frame, LifeState))
    requires
        state.wf(),
    ensures
        is_full_frame(r.0, state.shown()),
        is_advance_of(r.1, state),
{
    let LifeState { mut state_a, mut state_b, show_state_a } = state;
    let pixels = if show_state_a {
        let p = state_a.to_bytes();
        step(&mut state_b, &state_a);
        p
    } else {
        let p = state_b.to_bytes();
        step(&mut state_a, &state_b);
        p
    };
    let frame = Frame {
        x: 0,
        y: 0,
        width: BOARD_WIDTH as u32,
        height: BOARD_HEIGHT as u32,
        pixels,
        rows: refresh_rows(),
    };
    (frame, LifeState { state_a, state_b, show_state_a: !show_state_a })
}

/// One generation from what the store held: `MissingState` exactly when a
/// board or the flag is absent, else the frame to show and the state to persist.
pub fn advance(state_a: Option<BoardState>, state_b: Option<BoardState>, show_state_a: Option<
    bool,
>) -> (r: Result<(Frame, LifeState), LifeError>)
    requires
        state_a.is_some() ==> state_a.unwrap().wf(),
        state_b.is_some() ==> state_b.unwrap().wf(),
    ensures
        r.is_err() <==> (state_a.is_none() || state_b.is_none() || show_state_a.is_none()),
        r.is_err() ==> r == Err::<(Frame, LifeState), LifeError>(LifeError::MissingState),
        r.is_ok() ==> ({
            let prev = LifeState {
                state_a: state_a.unwrap(),
                state_b: state_b.unwrap(),
                show_state_a: show_state_a.unwrap(),
            };
            is_full_frame(r.unwrap().0, prev.shown()) && is_advance_of(r.unwrap().1, prev)
        }),
{
    match (state_a, state_b, show_state_a) {
        (Some(a), Some(b), Some(f)) => Ok(
            advance_state(LifeState { state_a: a, state_b: b, show_state_a: f }),
        ),
        _ => Err(LifeError::MissingState),
    }
}

/// Double buffering: each generation turns the flag over, leaves the board it
/// displayed untouched and writes only the other one, which it then selects;
/// two generations bring the flag back to where it was.
pub proof fn lemma_buffers_alternate(s0: LifeState, s1: LifeState, s2: LifeState)
    requires
        s0.wf(),
        is_advance_of(s1, s0),
        is_advance_of(s2, s1),
    ensures
        s1.show_state_a != s0.show_state_a,
        s2.show_state_a == s0.show_state_a,
        s0.show_state_a ==> s1.state_a.bytes@ == s0.state_a.bytes@,
        !s0.show_state_a ==> s1.state_b.bytes@ == s0.state_b.bytes@,
        is_next_generation(s1.shown(), s0.shown()),
        is_next_generation(s2.shown(), s1.shown()),
{
}

} // verus!
