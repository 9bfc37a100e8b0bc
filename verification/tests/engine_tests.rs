use luzhanqi::board::rc_to_idx;
use luzhanqi::board::idx_to_rc;
use luzhanqi::board::up;
use luzhanqi::board::down;
use luzhanqi::board::left;
use luzhanqi::board::right;
use luzhanqi::board::up_left;
use luzhanqi::board::up_right;
use luzhanqi::board::down_left;
use luzhanqi::board::down_right;
use luzhanqi::engine::Engine;
use luzhanqi::engine::GameState as CounterState;

#[test]
fn test_counter_state_starts_at_zero() {
    let state = CounterState::new();
    assert_eq!(state.turn, 0);
}

#[test]
fn test_apply_move_increments_turn() {
    let mut state = CounterState::new();
    state.apply_move();
    state.apply_move();
    assert_eq!(state.turn, 2);
}

#[test]
fn test_engine_ticks_accumulate() {
    let mut engine = Engine::new();
    assert_eq!(engine.state().turn, 0);
    for _ in 0..5 {
        engine.tick();
    }
    assert_eq!(engine.state().turn, 5);
}

#[test]
fn test_index_and_coordinates_round_trip() {
    assert_eq!(idx_to_rc(0), (0, 0));
    assert_eq!(idx_to_rc(7), (1, 2));
    assert_eq!(idx_to_rc(64), (12, 4));
    assert_eq!(rc_to_idx(1, 2), Some(7));
    assert_eq!(rc_to_idx(12, 4), Some(64));
    assert_eq!(rc_to_idx(-1, 0), None);
    assert_eq!(rc_to_idx(13, 0), None);
    assert_eq!(rc_to_idx(0, 5), None);
    for sq in 0..65u8 {
        let (r, c) = idx_to_rc(sq);
        assert_eq!(rc_to_idx(r, c), Some(sq));
    }
}

#[test]
fn test_orthogonal_neighbors() {
    assert_eq!(up(0), None);
    assert_eq!(up(5), Some(0));
    assert_eq!(down(60), None);
    assert_eq!(down(0), Some(5));
    assert_eq!(left(5), None);
    assert_eq!(left(6), Some(5));
    assert_eq!(right(4), None);
    assert_eq!(right(3), Some(4));
}

#[test]
fn test_diagonal_neighbors() {
    assert_eq!(up_left(6), Some(0));
    assert_eq!(up_left(5), None);
    assert_eq!(up_left(1), None);
    assert_eq!(up_right(5), Some(1));
    assert_eq!(up_right(9), None);
    assert_eq!(down_left(1), Some(5));
    assert_eq!(down_left(60), None);
    assert_eq!(down_right(59), None);
    assert_eq!(down_right(58), Some(64));
}
