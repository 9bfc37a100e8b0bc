use luzhanqi::board::Color;
use luzhanqi::board::GameState;
use luzhanqi::board::Piece;
use luzhanqi::board::PieceType;
use luzhanqi::board::SquareType;
use luzhanqi::board::square_type;

const ALL_KINDS: [PieceType; 12] = [
    PieceType::Overall,
    PieceType::Army,
    PieceType::Division,
    PieceType::Brigade,
    PieceType::Regiment,
    PieceType::Battalion,
    PieceType::Company,
    PieceType::Platoon,
    PieceType::Engineer,
    PieceType::Bomb,
    PieceType::Landmine,
    PieceType::Flag,
];

fn count_of(state: &GameState, color: Color, ty: PieceType) -> usize {
    state
        .board
        .iter()
        .filter(|o| matches!(o, Some(p) if p.ty == ty && p.color == color))
        .count()
}

fn find_piece(state: &GameState, color: Color, ty: PieceType) -> usize {
    state
        .board
        .iter()
        .position(|o| matches!(o, Some(p) if p.ty == ty && p.color == color))
        .expect("piece not found")
}

fn red_first_row(sq: usize) -> bool {
    (35..40).contains(&sq)
}

fn red_back_rows(sq: usize) -> bool {
    (55..65).contains(&sq)
}

#[test]
fn test_random_start_is_legal() {
    let state = GameState::random_start(1234);
    assert!(state.is_startpos_legal());
}

#[test]
fn test_illegal_position_detected() {
    let mut state = GameState::new();
    // Place a single red overall on an illegal square (frontline)
    state.board[30] = Some(Piece { ty: PieceType::Overall, color: Color::Red });
    assert!(!state.is_startpos_legal());
}

#[test]
fn test_many_seeds_generate_legal_states() {
    for seed in 0..50u64 {
        let state = GameState::random_start(seed);
        assert!(state.is_startpos_legal(), "seed {seed} gave an illegal state");
    }
}

#[test]
fn test_same_seed_gives_identical_state() {
    let a = GameState::random_start(42);
    let b = GameState::random_start(42);
    assert_eq!(a.turn, b.turn);
    assert_eq!(a.board.len(), b.board.len());
    for i in 0..a.board.len() {
        assert_eq!(a.board[i], b.board[i], "square {i} differs");
    }
}

#[test]
fn test_generated_counts_match_quotas() {
    let state = GameState::random_start(7);
    for color in [Color::Red, Color::Black] {
        for ty in ALL_KINDS {
            assert_eq!(
                count_of(&state, color, ty),
                ty.num_per_player(),
                "wrong count for {ty:?} of {color:?}"
            );
        }
    }
}

#[test]
fn test_generated_state_starts_with_red() {
    let state = GameState::random_start(99);
    assert_eq!(state.turn, Color::Red);
}

#[test]
fn test_frontline_row_stays_empty_in_generated_state() {
    let state = GameState::random_start(5);
    for sq in 30..35 {
        assert!(state.board[sq].is_none(), "square {sq} should be empty");
    }
}

#[test]
fn test_extra_piece_makes_state_illegal() {
    let mut state = GameState::random_start(11);
    assert!(state.is_startpos_legal());
    // Square 32 is a frontline square, always empty in a legal state.
    assert!(state.board[32].is_none());
    state.board[32] = Some(Piece { ty: PieceType::Platoon, color: Color::Red });
    assert!(!state.is_startpos_legal());
}

#[test]
fn test_duplicated_piece_makes_state_illegal() {
    let mut state = GameState::random_start(11);
    let overall = find_piece(&state, Color::Red, PieceType::Overall);
    let army = find_piece(&state, Color::Red, PieceType::Army);
    state.board[army] = state.board[overall];
    assert!(!state.is_startpos_legal());
}

#[test]
fn test_bomb_on_first_row_is_illegal() {
    let mut state = GameState::random_start(3);
    let bomb = find_piece(&state, Color::Red, PieceType::Bomb);
    assert!(!red_first_row(bomb));
    // Every red first-row square is occupied by a piece free of placement
    // constraints, so only the Bomb rule is at stake after the swap.
    let target = 36;
    assert!(state.board[target].is_some());
    state.board.swap(bomb, target);
    assert!(!state.is_startpos_legal());
}

#[test]
fn test_bomb_swapped_within_allowed_squares_stays_legal() {
    let mut state = GameState::random_start(3);
    let bomb = find_piece(&state, Color::Red, PieceType::Bomb);
    // Find a red piece without placement constraints standing off the
    // first row; exchanging it with the Bomb keeps every rule satisfied.
    let target = state
        .board
        .iter()
        .enumerate()
        .position(|(i, o)| {
            !red_first_row(i)
                && matches!(o, Some(p) if p.color == Color::Red
                    && !matches!(p.ty, PieceType::Bomb | PieceType::Landmine | PieceType::Flag))
        })
        .expect("unconstrained red piece off the first row");
    assert!(state.is_startpos_legal());
    state.board.swap(bomb, target);
    assert!(state.is_startpos_legal());
}

#[test]
fn test_landmine_off_back_rows_is_illegal() {
    let mut state = GameState::random_start(8);
    let mine = find_piece(&state, Color::Red, PieceType::Landmine);
    assert!(red_back_rows(mine));
    // First-row occupants carry no placement constraint of their own, so
    // the swap leaves only the Landmine rule violated.
    let target = 37;
    assert!(state.board[target].is_some());
    state.board.swap(mine, target);
    assert!(!state.is_startpos_legal());
}

#[test]
fn test_flag_off_hq_is_illegal() {
    let mut state = GameState::random_start(21);
    let flag = find_piece(&state, Color::Red, PieceType::Flag);
    assert!(flag == 61 || flag == 63);
    let target = 38;
    assert!(state.board[target].is_some());
    state.board.swap(flag, target);
    assert!(!state.is_startpos_legal());
}

#[test]
fn test_empty_board_is_illegal() {
    let state = GameState::new();
    assert_eq!(state.turn, Color::Red);
    assert_eq!(state.board.len(), 65);
    assert!(state.board.iter().all(|o| o.is_none()));
    assert!(!state.is_startpos_legal());
}

#[test]
fn test_overall_on_frontline_square_is_illegal() {
    let mut state = GameState::random_start(17);
    let overall = find_piece(&state, Color::Red, PieceType::Overall);
    // Move the Overall to square 30, a frontline square: counts stay
    // correct, only the terrain rule is violated.
    state.board[30] = state.board[overall];
    state.board[overall] = None;
    assert!(!state.is_startpos_legal());
}

#[test]
fn test_wrong_board_length_is_illegal() {
    let mut short = GameState::random_start(2);
    short.board.pop();
    assert!(!short.is_startpos_legal());

    let mut long = GameState::random_start(2);
    long.board.push(None);
    assert!(!long.is_startpos_legal());
}

#[test]
fn test_piece_on_opponent_half_is_illegal() {
    let mut state = GameState::random_start(13);
    let overall = find_piece(&state, Color::Red, PieceType::Overall);
    // Square 22 is an empty-terrain square on Black's half.
    let target = 22;
    let occupant = state.board[target];
    assert!(occupant.is_some());
    state.board[target] = state.board[overall];
    state.board[overall] = occupant;
    assert!(!state.is_startpos_legal());
}

#[test]
fn test_rank_ordering() {
    assert_eq!(PieceType::Overall.rank(), 9);
    assert_eq!(PieceType::Army.rank(), 8);
    assert_eq!(PieceType::Division.rank(), 7);
    assert_eq!(PieceType::Brigade.rank(), 6);
    assert_eq!(PieceType::Regiment.rank(), 5);
    assert_eq!(PieceType::Battalion.rank(), 4);
    assert_eq!(PieceType::Company.rank(), 3);
    assert_eq!(PieceType::Platoon.rank(), 2);
    assert_eq!(PieceType::Engineer.rank(), 1);
    assert_eq!(PieceType::Bomb.rank(), 0);
    assert_eq!(PieceType::Landmine.rank(), 0);
    assert_eq!(PieceType::Flag.rank(), 0);
}

#[test]
fn test_quotas_sum_to_twenty_five() {
    assert_eq!(PieceType::Overall.num_per_player(), 1);
    assert_eq!(PieceType::Army.num_per_player(), 1);
    assert_eq!(PieceType::Division.num_per_player(), 2);
    assert_eq!(PieceType::Brigade.num_per_player(), 2);
    assert_eq!(PieceType::Regiment.num_per_player(), 2);
    assert_eq!(PieceType::Battalion.num_per_player(), 2);
    assert_eq!(PieceType::Company.num_per_player(), 3);
    assert_eq!(PieceType::Platoon.num_per_player(), 3);
    assert_eq!(PieceType::Engineer.num_per_player(), 3);
    assert_eq!(PieceType::Bomb.num_per_player(), 2);
    assert_eq!(PieceType::Landmine.num_per_player(), 3);
    assert_eq!(PieceType::Flag.num_per_player(), 1);
    let total: usize = ALL_KINDS.iter().map(|t| t.num_per_player()).sum();
    assert_eq!(total, 25);
}

#[test]
fn test_color_other_flips() {
    assert_eq!(Color::Red.other(), Color::Black);
    assert_eq!(Color::Black.other(), Color::Red);
    assert_eq!(Color::Red.other().other(), Color::Red);
}

#[test]
fn test_square_types_match_board_diagram() {
    assert_eq!(square_type(0), SquareType::Empty);
    assert_eq!(square_type(1), SquareType::HQ);
    assert_eq!(square_type(3), SquareType::HQ);
    assert_eq!(square_type(5), SquareType::Railroad);
    assert_eq!(square_type(11), SquareType::Camp);
    assert_eq!(square_type(12), SquareType::Empty);
    assert_eq!(square_type(17), SquareType::Camp);
    assert_eq!(square_type(30), SquareType::Frontline);
    assert_eq!(square_type(31), SquareType::Mountain);
    assert_eq!(square_type(32), SquareType::Frontline);
    assert_eq!(square_type(33), SquareType::Mountain);
    assert_eq!(square_type(34), SquareType::Frontline);
    assert_eq!(square_type(41), SquareType::Camp);
    assert_eq!(square_type(47), SquareType::Camp);
    assert_eq!(square_type(57), SquareType::Railroad);
    assert_eq!(square_type(61), SquareType::HQ);
    assert_eq!(square_type(63), SquareType::HQ);
    assert_eq!(square_type(64), SquareType::Empty);
}
