use life_board::{
    advance, advance_state, get_cell, initial_state, neighbors_alive, random_board, seed_board,
    set_cell, setup_state, step, toggle_cell, BoardState, DisplayBuffer, LifeError,
    BOARD_BYTES, BOARD_HEIGHT, BOARD_WIDTH,
};

fn board_with(cells: &[(usize, usize)]) -> BoardState {
    let mut b = BoardState::new();
    for &(c, r) in cells {
        set_cell(&mut b, c, r, true);
    }
    b
}

fn live_cells(b: &BoardState) -> Vec<(usize, usize)> {
    let mut out = Vec::new();
    for r in 0..BOARD_HEIGHT {
        for c in 0..BOARD_WIDTH {
            if get_cell(b, c, r) {
                out.push((c, r));
            }
        }
    }
    out
}

fn stepped(prev: &BoardState) -> BoardState {
    let mut next = BoardState::new();
    step(&mut next, prev);
    next
}

#[test]
fn set_then_get_round_trip() {
    for &(c, r) in &[(0, 0), (7, 3), (8, 3), (31, 15), (13, 9)] {
        for &v in &[true, false] {
            let mut b = board_with(&[(5, 5), (6, 5), (30, 14)]);
            let before = b.clone();
            set_cell(&mut b, c, r, v);
            assert_eq!(get_cell(&b, c, r), v);
            for rr in 0..BOARD_HEIGHT {
                for cc in 0..BOARD_WIDTH {
                    if (cc, rr) != (c, r) {
                        assert_eq!(get_cell(&b, cc, rr), get_cell(&before, cc, rr));
                    }
                }
            }
        }
    }
}

#[test]
fn packed_layout_bit_per_column() {
    let b = board_with(&[(9, 2)]);
    let bytes = b.to_bytes();
    assert_eq!(bytes.len(), BOARD_BYTES);
    assert_eq!(bytes[2 * 4 + 1], 1 << 1);
    assert_eq!(bytes.iter().filter(|&&x| x != 0).count(), 1);
}

#[test]
fn toggle_flips_one_cell() {
    let mut b = board_with(&[(3, 4)]);
    toggle_cell(&mut b, 3, 4);
    assert!(!get_cell(&b, 3, 4));
    toggle_cell(&mut b, 10, 11);
    assert_eq!(live_cells(&b), vec![(10, 11)]);
}

#[test]
fn neighbor_counts_on_full_board() {
    let full = BoardState::from_bytes(vec![0xffu8; BOARD_BYTES]).unwrap();
    assert_eq!(neighbors_alive(&full, 5, 5), 8);
    for &(c, r) in &[(0, 0), (31, 0), (0, 15), (31, 15)] {
        assert_eq!(neighbors_alive(&full, c, r), 3);
    }
    for &(c, r) in &[(0, 7), (31, 7), (12, 0), (12, 15)] {
        assert_eq!(neighbors_alive(&full, c, r), 5);
    }
}

#[test]
fn neighbor_count_bounds_everywhere() {
    let b = seed_board(&(0..512u32).map(|i| (i * 7 + i / 3) % 4).collect());
    for r in 0..BOARD_HEIGHT {
        for c in 0..BOARD_WIDTH {
            let n = neighbors_alive(&b, c, r);
            let corner = (c == 0 || c == BOARD_WIDTH - 1) && (r == 0 || r == BOARD_HEIGHT - 1);
            let edge = c == 0 || c == BOARD_WIDTH - 1 || r == 0 || r == BOARD_HEIGHT - 1;
            if corner {
                assert!(n <= 3);
            } else if edge {
                assert!(n <= 5);
            } else {
                assert!(n <= 8);
            }
        }
    }
}

#[test]
fn corner_does_not_wrap() {
    let mut cells = vec![(0, 0)];
    for r in 0..BOARD_HEIGHT {
        cells.push((BOARD_WIDTH - 1, r));
    }
    for c in 0..BOARD_WIDTH {
        cells.push((c, BOARD_HEIGHT - 1));
    }
    let b = board_with(&cells);
    assert_eq!(neighbors_alive(&b, 0, 0), 0);
}

#[test]
fn block_is_still_life() {
    let block = board_with(&[(10, 5), (11, 5), (10, 6), (11, 6)]);
    let next = stepped(&block);
    assert_eq!(next, block);
}

#[test]
fn blinker_oscillates() {
    let horizontal = board_with(&[(9, 7), (10, 7), (11, 7)]);
    let vertical = stepped(&horizontal);
    assert_eq!(live_cells(&vertical), vec![(10, 6), (10, 7), (10, 8)]);
    let back = stepped(&vertical);
    assert_eq!(back, horizontal);
}

#[test]
fn step_overwrites_stale_next() {
    let prev = board_with(&[(9, 7), (10, 7), (11, 7)]);
    let mut dirty = BoardState::from_bytes(vec![0xa5u8; BOARD_BYTES]).unwrap();
    step(&mut dirty, &prev);
    assert_eq!(dirty, stepped(&prev));
}

#[test]
fn step_is_deterministic() {
    let prev = seed_board(&(0..512u32).map(|i| (i * 5 + 1) % 4).collect());
    let first = stepped(&prev);
    let second = stepped(&prev);
    assert_eq!(first, second);
}

#[test]
fn lone_cell_dies() {
    let b = board_with(&[(4, 4)]);
    assert!(live_cells(&stepped(&b)).is_empty());
}

#[test]
fn seed_board_alive_on_sentinel_draw() {
    let mut draws = vec![0u32; 512];
    draws[0] = 3;
    draws[33] = 3;
    draws[511] = 3;
    draws[40] = 2;
    let b = seed_board(&draws);
    assert_eq!(live_cells(&b), vec![(0, 0), (1, 1), (31, 15)]);
}

#[test]
fn random_boards_are_whole_and_differ() {
    let a = random_board();
    let b = random_board();
    assert_eq!(a.to_bytes().len(), BOARD_BYTES);
    assert_ne!(a, b);
    let live = live_cells(&a).len();
    assert!(live > 0 && live < 512);
}

#[test]
fn initialize_selects_board_a() {
    let seeded = board_with(&[(1, 1)]);
    let s = initial_state(seeded.clone());
    assert!(s.show_state_a);
    assert_eq!(s.state_a, seeded);
    assert_eq!(s.state_b, BoardState::new());
    let r = setup_state();
    assert!(r.show_state_a);
    assert_eq!(r.state_b, BoardState::new());
}

#[test]
fn advance_alternates_buffers() {
    let blinker = board_with(&[(9, 7), (10, 7), (11, 7)]);
    let s0 = initial_state(blinker.clone());
    let (frame, s1) = advance_state(s0.clone());
    assert_eq!(frame.pixels, blinker.to_bytes());
    assert_eq!((frame.x, frame.y, frame.width, frame.height), (0, 0, 32, 16));
    assert_eq!(frame.rows, (0..16u8).collect::<Vec<u8>>());
    assert!(!s1.show_state_a);
    assert_eq!(s1.state_a, blinker);
    assert_eq!(s1.state_b, stepped(&blinker));

    let (frame2, s2) = advance_state(s1.clone());
    assert_eq!(frame2.pixels, s1.state_b.to_bytes());
    assert!(s2.show_state_a);
    assert_eq!(s2.state_b, s1.state_b);
    assert_eq!(s2.state_a, blinker);
}

#[test]
fn advance_from_store_values() {
    let a = board_with(&[(2, 2)]);
    let b = board_with(&[(9, 7), (10, 7), (11, 7)]);
    let (frame, next) = advance(Some(a.clone()), Some(b.clone()), Some(false)).unwrap();
    assert_eq!(frame.pixels, b.to_bytes());
    assert!(next.show_state_a);
    assert_eq!(next.state_b, b);
    assert_eq!(next.state_a, stepped(&b));
}

#[test]
fn advance_without_initialize_fails() {
    let a = BoardState::new();
    assert_eq!(advance(None, None, None), Err(LifeError::MissingState));
    assert_eq!(advance(Some(a.clone()), Some(a.clone()), None), Err(LifeError::MissingState));
    assert_eq!(advance(None, Some(a.clone()), Some(true)), Err(LifeError::MissingState));
    assert_eq!(advance(Some(a.clone()), None, Some(true)), Err(LifeError::MissingState));
}

#[test]
fn from_bytes_requires_whole_board() {
    assert!(BoardState::from_bytes(vec![0u8; 63]).is_none());
    assert!(BoardState::from_bytes(vec![0u8; 65]).is_none());
    assert!(BoardState::from_bytes(vec![0u8; 64]).is_some());
}

#[test]
fn display_buffer_packs_pixels() {
    let mut buf = DisplayBuffer::new();
    buf.set_pixel(0, 0, true);
    buf.set_pixel(9, 1, true);
    buf.set_pixel(-1, 3, true);
    buf.set_pixel(4, -2, true);
    let bytes = buf.clone().to_vec();
    assert_eq!(bytes.len(), 64);
    assert_eq!(bytes[0], 1);
    assert_eq!(bytes[5], 1 << 1);
    assert_eq!(bytes.iter().filter(|&&x| x != 0).count(), 2);
    buf.set_pixel(0, 0, false);
    assert_eq!(buf.clone().to_vec()[0], 0);
    buf.clear();
    assert_eq!(buf.to_vec(), vec![0u8; 64]);
}

#[test]
fn display_buffer_size() {
    assert_eq!(DisplayBuffer::new().size(), (32, 16));
}

