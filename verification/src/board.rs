//! Board topology, piece taxonomy, the starting-position legality
//! validator, and the seeded generator of legal starting positions.
//!
//! The board is a 13-row by 5-column grid in row-major order, row 0 the
//! far (Black) side, row 12 the near (Red) side. Each square has a fixed
//! terrain; each side owns the 25 Empty/Railroad/HQ squares of its half.

use vstd::prelude::*;

use crate::counting::count_if;
use crate::counting::lemma_count_remove;
use crate::counting::lemma_count_take_step;
use crate::counting::lemma_count_update;
use crate::counting::lemma_count_zero;
use crate::prng::spec_range_draw;
use crate::prng::spec_step;
use crate::prng::PseudoRng;

verus! {

pub const NUM_SQUARES: usize = 65;

pub const NUM_PIECETYPES: usize = 12;

pub type SquareIndex = u8;

/// Terrain classification of a board square.
/// Empty: no special rule. Railroad: fast-movement corridor.
/// Camp: occupant immune to capture (never a starting square).
/// HQ: may be entered but never left. Frontline: transit only, no landing.
/// Mountain: never occupiable.
#[derive(Clone, Debug, PartialEq, Eq, Structural)]
pub enum SquareType {
    Empty,
    Railroad,
    Camp,
    HQ,
    Frontline,
    Mountain,
}

/// The twelve piece kinds, strongest first; Bomb, Landmine and Flag have
/// no combat rank.
#[derive(Clone, Copy, Debug, PartialEq, Eq, Structural)]
pub enum PieceType {
    Overall,
    Army,
    Division,
    Brigade,
    Regiment,
    Battalion,
    Company,
    Platoon,
    Engineer,
    Bomb,
    Landmine,
    Flag,
}

/// The two players. Red owns rows 7..=12, Black owns rows 0..=5.
#[derive(Clone, Copy, Debug, PartialEq, Eq, Structural)]
pub enum Color {
    Red,
    Black,
}

/// An immutable (kind, side) pair.
#[derive(Clone, Copy, Debug, PartialEq, Eq, Structural)]
pub struct Piece {
    pub ty: PieceType,
    pub color: Color,
}

// ---------------------------------------------------------------------------
// Square helpers
// ---------------------------------------------------------------------------

/// (row, column) of a square index.
pub fn idx_to_rc(idx: SquareIndex) -> (rc: (i32, i32))
    ensures
        rc.0 == idx as int / 5,
        rc.1 == idx as int % 5,
{
    let i = idx as usize;
    ((i / 5) as i32, (i % 5) as i32)
}

/// Square index of a (row, column) pair, `None` outside the grid.
pub fn rc_to_idx(r: i32, c: i32) -> (res: Option<SquareIndex>)
    ensures
        (0 <= r < 13 && 0 <= c < 5) ==> res == Some((r * 5 + c) as SquareIndex),
        !(0 <= r < 13 && 0 <= c < 5) ==> res is None,
{
    if 0 <= r && r < 13 && 0 <= c && c < 5 {
        Some((r as usize * 5 + c as usize) as SquareIndex)
    } else {
        None
    }
}

pub fn up(sq: SquareIndex) -> (res: Option<SquareIndex>)
    requires
        sq < 65,
    ensures
        sq >= 5 ==> res == Some((sq - 5) as SquareIndex),
        sq < 5 ==> res is None,
{
    let (r, c) = idx_to_rc(sq);
    rc_to_idx(r - 1, c)
}

pub fn down(sq: SquareIndex) -> (res: Option<SquareIndex>)
    requires
        sq < 65,
    ensures
        sq < 60 ==> res == Some((sq + 5) as SquareIndex),
        sq >= 60 ==> res is None,
{
    let (r, c) = idx_to_rc(sq);
    rc_to_idx(r + 1, c)
}

pub fn left(sq: SquareIndex) -> (res: Option<SquareIndex>)
    requires
        sq < 65,
    ensures
        sq as int % 5 != 0 ==> res == Some((sq - 1) as SquareIndex),
        sq as int % 5 == 0 ==> res is None,
{
    let (r, c) = idx_to_rc(sq);
    rc_to_idx(r, c - 1)
}

pub fn right(sq: SquareIndex) -> (res: Option<SquareIndex>)
    requires
        sq < 65,
    ensures
        sq as int % 5 != 4 ==> res == Some((sq + 1) as SquareIndex),
        sq as int % 5 == 4 ==> res is None,
{
    let (r, c) = idx_to_rc(sq);
    rc_to_idx(r, c + 1)
}

pub fn up_left(sq: SquareIndex) -> (res: Option<SquareIndex>)
    requires
        sq < 65,
    ensures
        (sq >= 5 && sq as int % 5 != 0) ==> res == Some((sq - 6) as SquareIndex),
        !(sq >= 5 && sq as int % 5 != 0) ==> res is None,
{
    let (r, c) = idx_to_rc(sq);
    rc_to_idx(r - 1, c - 1)
}

pub fn up_right(sq: SquareIndex) -> (res: Option<SquareIndex>)
    requires
        sq < 65,
    ensures
        (sq >= 5 && sq as int % 5 != 4) ==> res == Some((sq - 4) as SquareIndex),
        !(sq >= 5 && sq as int % 5 != 4) ==> res is None,
{
    let (r, c) = idx_to_rc(sq);
    rc_to_idx(r - 1, c + 1)
}

pub fn down_left(sq: SquareIndex) -> (res: Option<SquareIndex>)
    requires
        sq < 65,
    ensures
        (sq < 60 && sq as int % 5 != 0) ==> res == Some((sq + 4) as SquareIndex),
        !(sq < 60 && sq as int % 5 != 0) ==> res is None,
{
    let (r, c) = idx_to_rc(sq);
    rc_to_idx(r + 1, c - 1)
}

pub fn down_right(sq: SquareIndex) -> (res: Option<SquareIndex>)
    requires
        sq < 65,
    ensures
        (sq < 60 && sq as int % 5 != 4) ==> res == Some((sq + 6) as SquareIndex),
        !(sq < 60 && sq as int % 5 != 4) ==> res is None,
{
    let (r, c) = idx_to_rc(sq);
    rc_to_idx(r + 1, c + 1)
}

// ---------------------------------------------------------------------------
// Terrain
// ---------------------------------------------------------------------------

/// Fixed terrain of square `i` of the 13x5 grid (rows of five, top row 0):
/// rows 0 and 12 hold the HQ pairs, rows 1, 5, 7 and 11 are railroads,
/// row 6 is the frontline with its two mountains, and the four inner rows
/// of each half mix railroads, camps and plain squares.
pub open spec fn spec_square_type(i: int) -> SquareType {
    let r = i / 5;
    let c = i % 5;
    if r == 0 || r == 12 {
        if c == 1 || c == 3 {
            SquareType::HQ
        } else {
            SquareType::Empty
        }
    } else if r == 1 || r == 5 || r == 7 || r == 11 {
        SquareType::Railroad
    } else if r == 6 {
        if c == 1 || c == 3 {
            SquareType::Mountain
        } else {
            SquareType::Frontline
        }
    } else if r == 3 || r == 9 {
        if c == 0 || c == 4 {
            SquareType::Railroad
        } else if c == 2 {
            SquareType::Camp
        } else {
            SquareType::Empty
        }
    } else {
        if c == 0 || c == 4 {
            SquareType::Railroad
        } else if c == 1 || c == 3 {
            SquareType::Camp
        } else {
            SquareType::Empty
        }
    }
}

/// Terrain lookup for a square index.
pub fn square_type(sq: SquareIndex) -> (t: SquareType)
    requires
        sq < 65,
    ensures
        t == spec_square_type(sq as int),
{
    let r = sq / 5;
    let c = sq % 5;
    if r == 0 || r == 12 {
        if c == 1 || c == 3 {
            SquareType::HQ
        } else {
            SquareType::Empty
        }
    } else if r == 1 || r == 5 || r == 7 || r == 11 {
        SquareType::Railroad
    } else if r == 6 {
        if c == 1 || c == 3 {
            SquareType::Mountain
        } else {
            SquareType::Frontline
        }
    } else if r == 3 || r == 9 {
        if c == 0 || c == 4 {
            SquareType::Railroad
        } else if c == 2 {
            SquareType::Camp
        } else {
            SquareType::Empty
        }
    } else {
        if c == 0 || c == 4 {
            SquareType::Railroad
        } else if c == 1 || c == 3 {
            SquareType::Camp
        } else {
            SquareType::Empty
        }
    }
}

// ---------------------------------------------------------------------------
// Taxonomy
// ---------------------------------------------------------------------------

/// Combat rank of a kind; Bomb, Landmine and Flag rank zero.
pub open spec fn spec_rank(t: PieceType) -> nat {
    match t {
        PieceType::Overall => 9,
        PieceType::Army => 8,
        PieceType::Division => 7,
        PieceType::Brigade => 6,
        PieceType::Regiment => 5,
        PieceType::Battalion => 4,
        PieceType::Company => 3,
        PieceType::Platoon => 2,
        PieceType::Engineer => 1,
        _ => 0,
    }
}

/// Fixed per-side quota of a kind; the twelve quotas sum to 25.
pub open spec fn quota(t: PieceType) -> nat {
    match t {
        PieceType::Overall => 1,
        PieceType::Army => 1,
        PieceType::Division => 2,
        PieceType::Brigade => 2,
        PieceType::Regiment => 2,
        PieceType::Battalion => 2,
        PieceType::Company => 3,
        PieceType::Platoon => 3,
        PieceType::Engineer => 3,
        PieceType::Bomb => 2,
        PieceType::Landmine => 3,
        PieceType::Flag => 1,
    }
}

impl PieceType {
    /// Returns the rank of the piece type.
    pub fn rank(&self) -> (r: usize)
        ensures
            r == spec_rank(*self),
    {
        match self {
            PieceType::Overall => 9,
            PieceType::Army => 8,
            PieceType::Division => 7,
            PieceType::Brigade => 6,
            PieceType::Regiment => 5,
            PieceType::Battalion => 4,
            PieceType::Company => 3,
            PieceType::Platoon => 2,
            PieceType::Engineer => 1,
            _ => 0,
        }
    }

    /// Returns the number of pieces of this type per player.
    pub fn num_per_player(&self) -> (n: usize)
        ensures
            n == quota(*self),
    {
        match self {
            PieceType::Overall => 1,
            PieceType::Army => 1,
            PieceType::Division => 2,
            PieceType::Brigade => 2,
            PieceType::Regiment => 2,
            PieceType::Battalion => 2,
            PieceType::Company => 3,
            PieceType::Platoon => 3,
            PieceType::Engineer => 3,
            PieceType::Bomb => 2,
            PieceType::Landmine => 3,
            PieceType::Flag => 1,
        }
    }
}

impl Color {
    /// Returns the next color in the turn order.
    pub fn other(&self) -> (c: Self)
        ensures
            *self == Color::Red ==> c == Color::Black,
            *self == Color::Black ==> c == Color::Red,
    {
        match self {
            Color::Red => Color::Black,
            Color::Black => Color::Red,
        }
    }
}

// ---------------------------------------------------------------------------
// Per-side regions
// ---------------------------------------------------------------------------

/// The two headquarters squares of a side.
pub open spec fn in_hq(c: Color, i: int) -> bool {
    match c {
        Color::Red => i == 61 || i == 63,
        Color::Black => i == 1 || i == 3,
    }
}

/// The five squares of a side's row nearest the frontline.
pub open spec fn in_first_row(c: Color, i: int) -> bool {
    match c {
        Color::Red => 35 <= i < 40,
        Color::Black => 25 <= i < 30,
    }
}

/// The ten squares of a side's two rows farthest from the frontline.
pub open spec fn in_back_rows(c: Color, i: int) -> bool {
    match c {
        Color::Red => 55 <= i < 65,
        Color::Black => 0 <= i < 10,
    }
}

/// The six rows of the board half a side owns.
pub open spec fn in_own_half(c: Color, i: int) -> bool {
    match c {
        Color::Red => 35 <= i < 65,
        Color::Black => 0 <= i < 30,
    }
}

/// Terrain on which a piece may start: Empty, Railroad or HQ.
pub open spec fn startable_terrain(t: SquareType) -> bool {
    t == SquareType::Empty || t == SquareType::Railroad || t == SquareType::HQ
}

/// A side's 25 playable squares: the startable squares of its own half.
pub open spec fn playable(c: Color, i: int) -> bool {
    in_own_half(c, i) && startable_terrain(spec_square_type(i))
}

// ---------------------------------------------------------------------------
// Game state and the legality of a starting position
// ---------------------------------------------------------------------------

/// A candidate game state: the side to move and, for each of the 65
/// squares, its occupant if any.
#[derive(Clone, Debug)]
pub struct GameState {
    pub turn: Color,
    pub board: Vec<Option<Piece>>,
}

/// Recognizer for an occupant of the given side and kind.
pub open spec fn piece_pred(c: Color, t: PieceType) -> spec_fn(Option<Piece>) -> bool {
    |o: Option<Piece>| o == Some(Piece { ty: t, color: c })
}

/// How many squares of `b` hold a piece of side `c` and kind `t`.
pub open spec fn piece_count(b: Seq<Option<Piece>>, c: Color, t: PieceType) -> nat {
    count_if(b, piece_pred(c, t))
}

/// Every (side, kind) pair is present in exactly its fixed quota.
pub open spec fn counts_ok(b: Seq<Option<Piece>>) -> bool {
    forall|c: Color, t: PieceType| #[trigger] piece_count(b, c, t) == quota(t)
}

/// The placement rules for one piece on one square: the square must be
/// playable for the piece's own side; a Bomb may not stand on the first
/// row, a Landmine must stand on the back rows, and the Flag must stand
/// on an HQ square.
pub open spec fn placement_ok(p: Piece, i: int) -> bool {
    &&& playable(p.color, i)
    &&& (p.ty == PieceType::Bomb ==> !in_first_row(p.color, i))
    &&& (p.ty == PieceType::Landmine ==> in_back_rows(p.color, i))
    &&& (p.ty == PieceType::Flag ==> in_hq(p.color, i))
}

/// Every occupied square obeys the placement rules.
pub open spec fn placement_all_ok(b: Seq<Option<Piece>>) -> bool {
    forall|i: int| #![trigger b[i]] 0 <= i < b.len() ==> (b[i] matches Some(p) ==> placement_ok(
        p,
        i,
    ))
}

/// A legal starting position: a 65-square board whose per-(side, kind)
/// counts all equal the quotas and whose every occupied square obeys the
/// placement rules. The side to move is not constrained.
pub open spec fn spec_startpos_legal(s: GameState) -> bool {
    &&& s.board@.len() == 65
    &&& counts_ok(s.board@)
    &&& placement_all_ok(s.board@)
}

/// The all-empty 65-square board.
pub open spec fn empty_board() -> Seq<Option<Piece>> {
    Seq::new(65, |i: int| None)
}

/// Counts the squares of `board` holding a piece of side `c`, kind `t`.
fn count_pieces(board: &Vec<Option<Piece>>, c: Color, t: PieceType) -> (n: usize)
    ensures
        n == piece_count(board@, c, t),
{
    let mut n: usize = 0;
    let mut i: usize = 0;
    while i < board.len()
        invariant
            i <= board@.len(),
            n <= i,
            n == piece_count(board@.take(i as int), c, t),
        decreases board@.len() - i,
    {
        proof {
            lemma_count_take_step(board@, piece_pred(c, t), i as int);
        }
        match board[i] {
            Some(p) => {
                if p.ty == t && p.color == c {
                    n = n + 1;
                }
            },
            None => {},
        }
        i = i + 1;
    }
    proof {
        assert(board@.take(board@.len() as int) =~= board@);
    }
    n
}

/// Whether the count of (side `c`, kind `t`) pieces equals the quota.
fn counts_match(board: &Vec<Option<Piece>>, c: Color, t: PieceType) -> (ok: bool)
    ensures
        ok == (piece_count(board@, c, t) == quota(t)),
{
    count_pieces(board, c, t) == t.num_per_player()
}

/// Executable mirror of `placement_ok`.
fn placement_ok_exec(p: Piece, sq: SquareIndex) -> (r: bool)
    requires
        sq < 65,
    ensures
        r == placement_ok(p, sq as int),
{
    let own = match p.color {
        Color::Red => sq >= 35,
        Color::Black => sq < 30,
    };
    if !own {
        return false;
    }
    let startable = match square_type(sq) {
        SquareType::Empty => true,
        SquareType::Railroad => true,
        SquareType::HQ => true,
        _ => false,
    };
    if !startable {
        return false;
    }
    let first = match p.color {
        Color::Red => 35 <= sq && sq < 40,
        Color::Black => 25 <= sq && sq < 30,
    };
    let back = match p.color {
        Color::Red => 55 <= sq,
        Color::Black => sq < 10,
    };
    let hq = match p.color {
        Color::Red => sq == 61 || sq == 63,
        Color::Black => sq == 1 || sq == 3,
    };
    if p.ty == PieceType::Bomb && first {
        return false;
    }
    if p.ty == PieceType::Landmine && !back {
        return false;
    }
    if p.ty == PieceType::Flag && !hq {
        return false;
    }
    true
}

// ---------------------------------------------------------------------------
// Generator: pools, draw order, and the spec-level model of every draw
// ---------------------------------------------------------------------------

/// Recognizer for a back-rows square of side `c`.
pub open spec fn back_sq_pred(c: Color) -> spec_fn(u8) -> bool {
    |s: u8| in_back_rows(c, s as int)
}

/// Recognizer for a first-row square of side `c`.
pub open spec fn first_sq_pred(c: Color) -> spec_fn(u8) -> bool {
    |s: u8| in_first_row(c, s as int)
}

/// Recognizer for a square of side `c` outside its first row.
pub open spec fn non_first_sq_pred(c: Color) -> spec_fn(u8) -> bool {
    |s: u8| !in_first_row(c, s as int)
}

/// Recognizer for kind `t` in a list of kinds.
pub open spec fn kind_pred(t: PieceType) -> spec_fn(PieceType) -> bool {
    |k: PieceType| k == t
}

/// The HQ square of side `c` selected by draw `d` (0 or 1).
pub open spec fn hq_sq(c: Color, d: int) -> u8 {
    match c {
        Color::Red => if d == 0 {
            61
        } else {
            63
        },
        Color::Black => if d == 0 {
            1
        } else {
            3
        },
    }
}

/// The 25 playable squares of side `c`, in ascending index order.
pub open spec fn spec_pool(c: Color) -> Seq<u8> {
    match c {
        Color::Red => seq![
            35u8, 36, 37, 38, 39, 40, 42, 44, 45, 46, 48, 49, 50, 52, 54, 55, 56, 57, 58, 59, 60,
            61, 62, 63, 64,
        ],
        Color::Black => seq![
            0u8, 1, 2, 3, 4, 5, 6, 7, 8, 9, 10, 12, 14, 15, 16, 18, 19, 20, 22, 24, 25, 26, 27,
            28, 29,
        ],
    }
}

/// The 19 kinds other than Flag, Landmine and Bomb, each repeated by its
/// quota, in taxonomy order.
pub open spec fn spec_kinds() -> Seq<PieceType> {
    seq![
        PieceType::Overall, PieceType::Army, PieceType::Division, PieceType::Division,
        PieceType::Brigade, PieceType::Brigade, PieceType::Regiment, PieceType::Regiment,
        PieceType::Battalion, PieceType::Battalion, PieceType::Company, PieceType::Company,
        PieceType::Company, PieceType::Platoon, PieceType::Platoon, PieceType::Platoon,
        PieceType::Engineer, PieceType::Engineer, PieceType::Engineer,
    ]
}

/// The fixed facts about a side's pool: its size, distinctness, that every
/// entry is playable, how many entries lie in the back rows and in the
/// first row, and that it holds both HQ squares.
#[verifier::rlimit(60)]
pub proof fn lemma_pool_facts(c: Color)
    ensures
        spec_pool(c).len() == 25,
        spec_pool(c).no_duplicates(),
        forall|k: int| 0 <= k < 25 ==> playable(c, #[trigger] spec_pool(c)[k] as int),
        count_if(spec_pool(c), back_sq_pred(c)) == 10,
        count_if(spec_pool(c), first_sq_pred(c)) == 5,
        spec_pool(c).contains(hq_sq(c, 0)),
        spec_pool(c).contains(hq_sq(c, 1)),
{
    reveal_with_fuel(count_if, 27);
    match c {
        Color::Red => {
            assert(spec_pool(c)[21] == 61);
            assert(spec_pool(c)[23] == 63);
        },
        Color::Black => {
            assert(spec_pool(c)[1] == 1);
            assert(spec_pool(c)[3] == 3);
        },
    }
}

/// The fixed facts about the list of remaining kinds: its length, that it
/// holds no Flag, Landmine or Bomb, and that each kind occurs exactly its
/// quota of times.
#[verifier::rlimit(60)]
pub proof fn lemma_kinds_facts()
    ensures
        spec_kinds().len() == 19,
        forall|k: int| 0 <= k < 19 ==> #[trigger] spec_kinds()[k] != PieceType::Flag
            && spec_kinds()[k] != PieceType::Landmine && spec_kinds()[k] != PieceType::Bomb,
        forall|t: PieceType| #[trigger] count_if(spec_kinds(), kind_pred(t)) == (if t
            == PieceType::Flag || t == PieceType::Landmine || t == PieceType::Bomb {
            0int
        } else {
            quota(t) as int
        }),
{
    reveal_with_fuel(count_if, 21);
    assert forall|t: PieceType| #[trigger] count_if(spec_kinds(), kind_pred(t)) == (if t
        == PieceType::Flag || t == PieceType::Landmine || t == PieceType::Bomb {
        0int
    } else {
        quota(t) as int
    }) by {
        reveal_with_fuel(count_if, 21);
    }
}

/// Removing one index from a duplicate-free sequence keeps it
/// duplicate-free, keeps it a sub-collection of the original, and drops
/// the removed element entirely.
pub proof fn lemma_remove_keeps<T>(s: Seq<T>, i: int)
    requires
        s.no_duplicates(),
        0 <= i < s.len(),
    ensures
        s.remove(i).no_duplicates(),
        forall|k: int| 0 <= k < s.len() - 1 ==> s.contains(#[trigger] s.remove(i)[k]),
        forall|k: int| 0 <= k < s.len() - 1 ==> s.remove(i)[k] != s[i],
{
    s.remove_ensures(i);
    assert forall|k: int| 0 <= k < s.len() - 1 implies s.contains(#[trigger] s.remove(i)[k]) by {
        if k < i {
            assert(s.remove(i)[k] == s[k]);
        } else {
            assert(s.remove(i)[k] == s[k + 1]);
        }
    }
}

/// Count of a value removed by `remove_value`, and the shrunken length.
pub proof fn lemma_count_remove_value(s: Seq<u8>, p: spec_fn(u8) -> bool, x: u8)
    requires
        s.contains(x),
    ensures
        s.remove_value(x).len() == s.len() - 1,
        count_if(s.remove_value(x), p) == count_if(s, p) - if p(x) {
            1int
        } else {
            0int
        },
{
    s.index_of_first_ensures(x);
    let i = s.index_of_first(x)->Some_0;
    lemma_count_remove(s, p, i);
}

/// The two complementary first-row counts of a pool sum to its length.
pub proof fn lemma_first_row_split(s: Seq<u8>, c: Color)
    ensures
        count_if(s, first_sq_pred(c)) + count_if(s, non_first_sq_pred(c)) == s.len(),
    decreases s.len(),
{
    if s.len() > 0 {
        lemma_first_row_split(s.drop_last(), c);
    }
}

/// The indices of the elements of `s` satisfying `p`, ascending.
pub open spec fn choice_idxs(s: Seq<u8>, p: spec_fn(u8) -> bool) -> Seq<usize>
    decreases s.len(),
{
    if s.len() == 0 {
        Seq::empty()
    } else {
        let pre = choice_idxs(s.drop_last(), p);
        if p(s.last()) {
            pre.push((s.len() - 1) as usize)
        } else {
            pre
        }
    }
}

/// There are as many choice indices as matching elements, and each picks
/// a matching element of `s`.
pub proof fn lemma_choice_idxs(s: Seq<u8>, p: spec_fn(u8) -> bool)
    requires
        s.len() <= usize::MAX,
    ensures
        choice_idxs(s, p).len() == count_if(s, p),
        forall|k: int| 0 <= k < choice_idxs(s, p).len() ==> (#[trigger] choice_idxs(s, p)[k] as int)
            < s.len() && p(s[choice_idxs(s, p)[k] as int]),
    decreases s.len(),
{
    if s.len() > 0 {
        lemma_choice_idxs(s.drop_last(), p);
        assert forall|k: int| 0 <= k < choice_idxs(s, p).len() implies (#[trigger] choice_idxs(
            s,
            p,
        )[k] as int) < s.len() && p(s[choice_idxs(s, p)[k] as int]) by {
            let pre = choice_idxs(s.drop_last(), p);
            if k < pre.len() {
                assert(choice_idxs(s, p)[k] == pre[k]);
                assert(s.drop_last()[pre[k] as int] == s[pre[k] as int]);
            }
        }
    }
}

/// Consistency of a side's remaining pool with the board: entries are
/// distinct playable squares of that side, all still empty.
pub open spec fn pool_ok(b: Seq<Option<Piece>>, pool: Seq<u8>, c: Color) -> bool {
    &&& pool.no_duplicates()
    &&& forall|k: int| #![trigger pool[k]] 0 <= k < pool.len() ==> playable(c, pool[k] as int)
        && b[pool[k] as int] is None
}

/// Model of the Flag placement: one draw picks an HQ square, the Flag
/// goes there, and that square leaves the side's full pool.
pub open spec fn spec_flag_step(b: Seq<Option<Piece>>, x: u64, c: Color) -> (
    Seq<Option<Piece>>,
    Seq<u8>,
    u64,
) {
    let d = spec_range_draw(x, 0, 2);
    let f = hq_sq(c, d);
    (
        b.update(f as int, Some(Piece { ty: PieceType::Flag, color: c })),
        spec_pool(c).remove_value(f),
        spec_step(x),
    )
}

/// Model of one constrained placement: one draw picks among the pool
/// indices whose square satisfies `p`, a piece of kind `t` goes on the
/// picked square, and the square leaves the pool.
pub open spec fn spec_draw_step(
    b: Seq<Option<Piece>>,
    pool: Seq<u8>,
    x: u64,
    c: Color,
    p: spec_fn(u8) -> bool,
    t: PieceType,
) -> (Seq<Option<Piece>>, Seq<u8>, u64) {
    let ch = choice_idxs(pool, p);
    let j = spec_range_draw(x, 0, ch.len() as int);
    let idx = ch[j] as int;
    let sq = pool[idx];
    (b.update(sq as int, Some(Piece { ty: t, color: c })), pool.remove(idx), spec_step(x))
}

/// Model of the final phase: while kinds remain, one draw picks a square
/// from the pool, a second picks a kind from the list, and the pair is
/// placed; both the square and the list entry are removed.
pub open spec fn spec_fill(
    b: Seq<Option<Piece>>,
    pool: Seq<u8>,
    kinds: Seq<PieceType>,
    x: u64,
    c: Color,
) -> (Seq<Option<Piece>>, u64)
    decreases kinds.len(),
{
    if kinds.len() == 0 || pool.len() == 0 {
        (b, x)
    } else {
        let j1 = spec_range_draw(x, 0, pool.len() as int);
        let x1 = spec_step(x);
        let sq = pool[j1];
        let pool1 = pool.remove(j1);
        let j2 = spec_range_draw(x1, 0, kinds.len() as int);
        let x2 = spec_step(x1);
        let ty = kinds[j2];
        let kinds1 = kinds.remove(j2);
        spec_fill(b.update(sq as int, Some(Piece { ty, color: c })), pool1, kinds1, x2, c)
    }
}

/// Model of one side's whole placement: Flag, then three Landmines on
/// back-row squares, then two Bombs off the first row, then the
/// remaining nineteen pieces.
pub open spec fn spec_place_side(b: Seq<Option<Piece>>, x: u64, c: Color) -> (
    Seq<Option<Piece>>,
    u64,
) {
    let (b1, p1, x1) = spec_flag_step(b, x, c);
    let (b2, p2, x2) = spec_draw_step(b1, p1, x1, c, back_sq_pred(c), PieceType::Landmine);
    let (b3, p3, x3) = spec_draw_step(b2, p2, x2, c, back_sq_pred(c), PieceType::Landmine);
    let (b4, p4, x4) = spec_draw_step(b3, p3, x3, c, back_sq_pred(c), PieceType::Landmine);
    let (b5, p5, x5) = spec_draw_step(b4, p4, x4, c, non_first_sq_pred(c), PieceType::Bomb);
    let (b6, p6, x6) = spec_draw_step(b5, p5, x5, c, non_first_sq_pred(c), PieceType::Bomb);
    spec_fill(b6, p6, spec_kinds(), x6, c)
}

/// Model of the full generated board for a seed: Red placed first, then
/// Black, drawing from one advancing stream.
pub open spec fn spec_start_board(seed: u64) -> Seq<Option<Piece>> {
    let (b1, x1) = spec_place_side(empty_board(), seed, Color::Red);
    let (b2, x2) = spec_place_side(b1, x1, Color::Black);
    b2
}

/// The side's pool as a vector, ascending.
fn side_pool(c: Color) -> (pool: Vec<u8>)
    ensures
        pool@ == spec_pool(c),
{
    let mut pool: Vec<u8> = Vec::new();
    match c {
        Color::Red => {
            pool.push(35);
            pool.push(36);
            pool.push(37);
            pool.push(38);
            pool.push(39);
            pool.push(40);
            pool.push(42);
            pool.push(44);
            pool.push(45);
            pool.push(46);
            pool.push(48);
            pool.push(49);
            pool.push(50);
            pool.push(52);
            pool.push(54);
            pool.push(55);
            pool.push(56);
            pool.push(57);
            pool.push(58);
            pool.push(59);
            pool.push(60);
            pool.push(61);
            pool.push(62);
            pool.push(63);
            pool.push(64);
        },
        Color::Black => {
            pool.push(0);
            pool.push(1);
            pool.push(2);
            pool.push(3);
            pool.push(4);
            pool.push(5);
            pool.push(6);
            pool.push(7);
            pool.push(8);
            pool.push(9);
            pool.push(10);
            pool.push(12);
            pool.push(14);
            pool.push(15);
            pool.push(16);
            pool.push(18);
            pool.push(19);
            pool.push(20);
            pool.push(22);
            pool.push(24);
            pool.push(25);
            pool.push(26);
            pool.push(27);
            pool.push(28);
            pool.push(29);
        },
    }
    proof {
        assert(pool@ =~= spec_pool(c));
    }
    pool
}

/// The list of remaining kinds, each repeated by its quota.
fn kinds_list() -> (ks: Vec<PieceType>)
    ensures
        ks@ == spec_kinds(),
{
    let mut ks: Vec<PieceType> = Vec::new();
    ks.push(PieceType::Overall);
    ks.push(PieceType::Army);
    ks.push(PieceType::Division);
    ks.push(PieceType::Division);
    ks.push(PieceType::Brigade);
    ks.push(PieceType::Brigade);
    ks.push(PieceType::Regiment);
    ks.push(PieceType::Regiment);
    ks.push(PieceType::Battalion);
    ks.push(PieceType::Battalion);
    ks.push(PieceType::Company);
    ks.push(PieceType::Company);
    ks.push(PieceType::Company);
    ks.push(PieceType::Platoon);
    ks.push(PieceType::Platoon);
    ks.push(PieceType::Platoon);
    ks.push(PieceType::Engineer);
    ks.push(PieceType::Engineer);
    ks.push(PieceType::Engineer);
    proof {
        assert(ks@ =~= spec_kinds());
    }
    ks
}

/// The HQ square of side `c` picked by draw `d`.
fn hq_square(c: Color, d: usize) -> (sq: u8)
    ensures
        sq == hq_sq(c, d as int),
{
    match c {
        Color::Red => if d == 0 {
            61
        } else {
            63
        },
        Color::Black => if d == 0 {
            1
        } else {
            3
        },
    }
}

/// Removes the first occurrence of `x` from `pool`.
fn remove_first(pool: &mut Vec<u8>, x: u8)
    requires
        old(pool)@.contains(x),
    ensures
        final(pool)@ == old(pool)@.remove_value(x),
{
    let n = pool.len();
    let mut j: usize = 0;
    while j < n && pool[j] != x
        invariant
            pool@ == old(pool)@,
            n == pool@.len(),
            j <= n,
            old(pool)@.contains(x),
            forall|k: int| 0 <= k < j ==> pool@[k] != x,
        decreases n - j,
    {
        j = j + 1;
    }
    proof {
        if j == n {
            let w = choose|w: int| 0 <= w < pool@.len() && pool@[w] == x;
            assert(pool@[w] != x);
        }
        pool@.index_of_first_ensures(x);
    }
    let _ = pool.remove(j);
}

/// The pool indices holding back-row squares of side `c`, ascending.
fn back_choices(pool: &Vec<u8>, c: Color) -> (ch: Vec<usize>)
    ensures
        ch@ == choice_idxs(pool@, back_sq_pred(c)),
{
    let mut ch: Vec<usize> = Vec::new();
    let mut i: usize = 0;
    while i < pool.len()
        invariant
            i <= pool@.len(),
            ch@ == choice_idxs(pool@.take(i as int), back_sq_pred(c)),
        decreases pool@.len() - i,
    {
        proof {
            assert(pool@.take(i as int + 1).drop_last() =~= pool@.take(i as int));
            assert(pool@.take(i as int + 1).last() == pool@[i as int]);
        }
        let s = pool[i];
        let is_back = match c {
            Color::Red => 55 <= s && s < 65,
            Color::Black => s < 10,
        };
        if is_back {
            ch.push(i);
        }
        i = i + 1;
    }
    proof {
        assert(pool@.take(pool@.len() as int) =~= pool@);
    }
    ch
}

/// The pool indices holding squares of side `c` off its first row,
/// ascending.
fn non_first_choices(pool: &Vec<u8>, c: Color) -> (ch: Vec<usize>)
    ensures
        ch@ == choice_idxs(pool@, non_first_sq_pred(c)),
{
    let mut ch: Vec<usize> = Vec::new();
    let mut i: usize = 0;
    while i < pool.len()
        invariant
            i <= pool@.len(),
            ch@ == choice_idxs(pool@.take(i as int), non_first_sq_pred(c)),
        decreases pool@.len() - i,
    {
        proof {
            assert(pool@.take(i as int + 1).drop_last() =~= pool@.take(i as int));
            assert(pool@.take(i as int + 1).last() == pool@[i as int]);
        }
        let s = pool[i];
        let in_first = match c {
            Color::Red => 35 <= s && s < 40,
            Color::Black => 25 <= s && s < 30,
        };
        if !in_first {
            ch.push(i);
        }
        i = i + 1;
    }
    proof {
        assert(pool@.take(pool@.len() as int) =~= pool@);
    }
    ch
}

/// Places the side's Flag on a drawn HQ square and removes that square
/// from the side's full pool.
fn place_flag(board: &mut Vec<Option<Piece>>, pool: &mut Vec<u8>, rng: &mut PseudoRng, c: Color)
    requires
        old(board)@.len() == 65,
        old(pool)@ == spec_pool(c),
        pool_ok(old(board)@, old(pool)@, c),
    ensures
        (final(board)@, final(pool)@, final(rng)@) == spec_flag_step(old(board)@, old(rng)@, c),
        final(board)@.len() == 65,
        pool_ok(final(board)@, final(pool)@, c),
        final(pool)@.len() == 24,
        count_if(final(pool)@, back_sq_pred(c)) == 9,
        count_if(final(pool)@, first_sq_pred(c)) == 5,
        forall|c2: Color, t: PieceType| #[trigger] piece_count(final(board)@, c2, t)
            == piece_count(old(board)@, c2, t) + (if c2 == c && t == PieceType::Flag {
            1int
        } else {
            0int
        }),
        forall|i: int| 0 <= i < 65 ==> final(board)@[i] == old(board)@[i] || (final(board)@[i] matches Some(p) && p.color == c && placement_ok(p, i)),
{
    proof {
        lemma_pool_facts(c);
    }
    let d = rng.gen_range(0..2usize);
    let fsq = hq_square(c, d);
    proof {
        assert(in_hq(c, fsq as int));
        assert(playable(c, fsq as int));
        assert(old(pool)@.contains(fsq));
        let w = choose|w: int| 0 <= w < old(pool)@.len() && old(pool)@[w] == fsq;
        assert(old(board)@[old(pool)@[w] as int] is None);
    }
    board[fsq as usize] = Some(Piece { ty: PieceType::Flag, color: c });
    remove_first(pool, fsq);
    proof {
        let b0 = old(board)@;
        let p0 = old(pool)@;
        let flag = Some(Piece { ty: PieceType::Flag, color: c });
        assert forall|c2: Color, t: PieceType| #[trigger] piece_count(board@, c2, t)
            == piece_count(b0, c2, t) + (if c2 == c && t == PieceType::Flag {
            1int
        } else {
            0int
        }) by {
            lemma_count_update(b0, piece_pred(c2, t), fsq as int, flag);
        }
        assert(in_back_rows(c, fsq as int));
        assert(!in_first_row(c, fsq as int));
        lemma_count_remove_value(p0, back_sq_pred(c), fsq);
        lemma_count_remove_value(p0, first_sq_pred(c), fsq);
        p0.index_of_first_ensures(fsq);
        let fi = p0.index_of_first(fsq)->Some_0;
        lemma_remove_keeps(p0, fi);
        assert forall|k: int| 0 <= k < pool@.len() implies playable(c, #[trigger] pool@[k] as int)
            && board@[pool@[k] as int] is None by {
            assert(p0.contains(pool@[k]));
            let w2 = choose|w2: int| 0 <= w2 < p0.len() && p0[w2] == pool@[k];
            assert(playable(c, p0[w2] as int));
            assert(pool@[k] != p0[fi]);
            assert(b0[p0[w2] as int] is None);
        }
    }
}

/// Places one piece of kind `t` for side `c` on the square picked by one
/// draw among the pool indices listed in `ch`, and removes that square.
/// Shared tail of the Landmine and Bomb steps, after their choice lists
/// are built.
fn place_from_choices(
    board: &mut Vec<Option<Piece>>,
    pool: &mut Vec<u8>,
    rng: &mut PseudoRng,
    c: Color,
    t: PieceType,
    ch: Vec<usize>,
    Ghost(p): Ghost<spec_fn(u8) -> bool>,
)
    requires
        old(board)@.len() == 65,
        pool_ok(old(board)@, old(pool)@, c),
        ch@ == choice_idxs(old(pool)@, p),
        count_if(old(pool)@, p) >= 1,
        old(pool)@.len() <= 65,
        t != PieceType::Flag,
        t == PieceType::Landmine ==> forall|s: u8| #[trigger] p(s) ==> in_back_rows(c, s as int),
        t == PieceType::Bomb ==> forall|s: u8| #[trigger] p(s) ==> !in_first_row(c, s as int),
    ensures
        (final(board)@, final(pool)@, final(rng)@) == spec_draw_step(
            old(board)@,
            old(pool)@,
            old(rng)@,
            c,
            p,
            t,
        ),
        final(board)@.len() == 65,
        pool_ok(final(board)@, final(pool)@, c),
        final(pool)@.len() == old(pool)@.len() - 1,
        forall|q: spec_fn(u8) -> bool| #[trigger] count_if(final(pool)@, q) == count_if(
            old(pool)@,
            q,
        ) - (if q(old(pool)@[choice_idxs(old(pool)@, p)[spec_range_draw(
            old(rng)@,
            0,
            choice_idxs(old(pool)@, p).len() as int,
        )] as int]) {
            1int
        } else {
            0int
        }),
        p(old(pool)@[choice_idxs(old(pool)@, p)[spec_range_draw(
            old(rng)@,
            0,
            choice_idxs(old(pool)@, p).len() as int,
        )] as int]),
        forall|c2: Color, t2: PieceType| #[trigger] piece_count(final(board)@, c2, t2)
            == piece_count(old(board)@, c2, t2) + (if c2 == c && t2 == t {
            1int
        } else {
            0int
        }),
        forall|i: int| 0 <= i < 65 ==> final(board)@[i] == old(board)@[i] || (final(board)@[i] matches Some(q) && q.color == c && placement_ok(q, i)),
{
    proof {
        lemma_choice_idxs(old(pool)@, p);
    }
    let j = rng.gen_range(0..ch.len());
    let idx = ch[j];
    let sq = pool.remove(idx);
    proof {
        assert(p(sq));
        assert(playable(c, sq as int));
    }
    board[sq as usize] = Some(Piece { ty: t, color: c });
    proof {
        let b0 = old(board)@;
        let p0 = old(pool)@;
        let piece = Some(Piece { ty: t, color: c });
        assert(b0[sq as int] is None);
        assert forall|c2: Color, t2: PieceType| #[trigger] piece_count(board@, c2, t2)
            == piece_count(b0, c2, t2) + (if c2 == c && t2 == t {
            1int
        } else {
            0int
        }) by {
            lemma_count_update(b0, piece_pred(c2, t2), sq as int, piece);
        }
        assert forall|q: spec_fn(u8) -> bool| #[trigger] count_if(pool@, q) == count_if(p0, q) - (
        if q(sq) {
            1int
        } else {
            0int
        }) by {
            lemma_count_remove(p0, q, idx as int);
        }
        lemma_remove_keeps(p0, idx as int);
        assert forall|k: int| 0 <= k < pool@.len() implies playable(c, #[trigger] pool@[k] as int)
            && board@[pool@[k] as int] is None by {
            assert(p0.contains(pool@[k]));
            let w2 = choose|w2: int| 0 <= w2 < p0.len() && p0[w2] == pool@[k];
            assert(playable(c, p0[w2] as int));
            assert(pool@[k] != p0[idx as int]);
            assert(b0[p0[w2] as int] is None);
        }
        assert(placement_ok(Piece { ty: t, color: c }, sq as int));
    }
}

/// Places one Landmine for side `c` on a drawn back-row square of its
/// remaining pool.
fn place_mine(board: &mut Vec<Option<Piece>>, pool: &mut Vec<u8>, rng: &mut PseudoRng, c: Color)
    requires
        old(board)@.len() == 65,
        pool_ok(old(board)@, old(pool)@, c),
        count_if(old(pool)@, back_sq_pred(c)) >= 1,
        old(pool)@.len() <= 65,
    ensures
        (final(board)@, final(pool)@, final(rng)@) == spec_draw_step(
            old(board)@,
            old(pool)@,
            old(rng)@,
            c,
            back_sq_pred(c),
            PieceType::Landmine,
        ),
        final(board)@.len() == 65,
        pool_ok(final(board)@, final(pool)@, c),
        final(pool)@.len() == old(pool)@.len() - 1,
        count_if(final(pool)@, back_sq_pred(c)) == count_if(old(pool)@, back_sq_pred(c)) - 1,
        count_if(final(pool)@, first_sq_pred(c)) == count_if(old(pool)@, first_sq_pred(c)),
        forall|c2: Color, t2: PieceType| #[trigger] piece_count(final(board)@, c2, t2)
            == piece_count(old(board)@, c2, t2) + (if c2 == c && t2 == PieceType::Landmine {
            1int
        } else {
            0int
        }),
        forall|i: int| 0 <= i < 65 ==> final(board)@[i] == old(board)@[i] || (final(board)@[i] matches Some(q) && q.color == c && placement_ok(q, i)),
{
    let ch = back_choices(pool, c);
    place_from_choices(
        board,
        pool,
        rng,
        c,
        PieceType::Landmine,
        ch,
        Ghost(back_sq_pred(c)),
    );
}

/// Places one Bomb for side `c` on a drawn square of its remaining pool
/// off its first row.
fn place_bomb(board: &mut Vec<Option<Piece>>, pool: &mut Vec<u8>, rng: &mut PseudoRng, c: Color)
    requires
        old(board)@.len() == 65,
        pool_ok(old(board)@, old(pool)@, c),
        count_if(old(pool)@, first_sq_pred(c)) < old(pool)@.len(),
        old(pool)@.len() <= 65,
    ensures
        (final(board)@, final(pool)@, final(rng)@) == spec_draw_step(
            old(board)@,
            old(pool)@,
            old(rng)@,
            c,
            non_first_sq_pred(c),
            PieceType::Bomb,
        ),
        final(board)@.len() == 65,
        pool_ok(final(board)@, final(pool)@, c),
        final(pool)@.len() == old(pool)@.len() - 1,
        count_if(final(pool)@, first_sq_pred(c)) == count_if(old(pool)@, first_sq_pred(c)),
        forall|c2: Color, t2: PieceType| #[trigger] piece_count(final(board)@, c2, t2)
            == piece_count(old(board)@, c2, t2) + (if c2 == c && t2 == PieceType::Bomb {
            1int
        } else {
            0int
        }),
        forall|i: int| 0 <= i < 65 ==> final(board)@[i] == old(board)@[i] || (final(board)@[i] matches Some(q) && q.color == c && placement_ok(q, i)),
{
    proof {
        lemma_first_row_split(old(pool)@, c);
    }
    let ch = non_first_choices(pool, c);
    place_from_choices(
        board,
        pool,
        rng,
        c,
        PieceType::Bomb,
        ch,
        Ghost(non_first_sq_pred(c)),
    );
}

/// Places all remaining kinds for side `c`: while kinds remain, one draw
/// picks a pool square and a second draw picks a kind, and the pair is
/// placed; both are removed. Pool and kind list start equally long, so
/// both are emptied together.
fn fill_rest(
    board: &mut Vec<Option<Piece>>,
    pool: &mut Vec<u8>,
    kinds: &mut Vec<PieceType>,
    rng: &mut PseudoRng,
    c: Color,
)
    requires
        old(board)@.len() == 65,
        pool_ok(old(board)@, old(pool)@, c),
        old(pool)@.len() == old(kinds)@.len(),
        forall|k: int| 0 <= k < old(kinds)@.len() ==> #[trigger] old(kinds)@[k] != PieceType::Flag
            && old(kinds)@[k] != PieceType::Landmine && old(kinds)@[k] != PieceType::Bomb,
    ensures
        (final(board)@, final(rng)@) == spec_fill(
            old(board)@,
            old(pool)@,
            old(kinds)@,
            old(rng)@,
            c,
        ),
        final(board)@.len() == 65,
        final(pool)@.len() == 0,
        final(kinds)@.len() == 0,
        forall|c2: Color, t2: PieceType| #[trigger] piece_count(final(board)@, c2, t2)
            == piece_count(old(board)@, c2, t2) + (if c2 == c {
            count_if(old(kinds)@, kind_pred(t2)) as int
        } else {
            0int
        }),
        forall|i: int| 0 <= i < 65 ==> final(board)@[i] == old(board)@[i] || (final(board)@[i]
            matches Some(q) && q.color == c && placement_ok(q, i)),
    decreases old(kinds)@.len(),
{
    if kinds.len() == 0 {
        proof {
            assert forall|c2: Color, t2: PieceType| #[trigger] piece_count(board@, c2, t2)
                == piece_count(old(board)@, c2, t2) + (if c2 == c {
                count_if(old(kinds)@, kind_pred(t2)) as int
            } else {
                0int
            }) by {
                assert(count_if(old(kinds)@, kind_pred(t2)) == 0);
            }
        }
        return ;
    }
    let ghost b0 = old(board)@;
    let ghost p0 = old(pool)@;
    let ghost k0 = old(kinds)@;
    let ghost x0 = old(rng)@;
    let j1 = rng.gen_range(0..pool.len());
    let sq = pool.remove(j1);
    let j2 = rng.gen_range(0..kinds.len());
    let ty = kinds.remove(j2);
    proof {
        assert(playable(c, sq as int));
        assert(b0[sq as int] is None);
    }
    board[sq as usize] = Some(Piece { ty, color: c });
    proof {
        let piece = Some(Piece { ty, color: c });
        assert forall|c2: Color, t2: PieceType| #[trigger] piece_count(board@, c2, t2)
            == piece_count(b0, c2, t2) + (if c2 == c && t2 == ty {
            1int
        } else {
            0int
        }) by {
            lemma_count_update(b0, piece_pred(c2, t2), sq as int, piece);
        }
        assert forall|t2: PieceType| #[trigger] count_if(kinds@, kind_pred(t2)) == count_if(
            k0,
            kind_pred(t2),
        ) - (if t2 == ty {
            1int
        } else {
            0int
        }) by {
            lemma_count_remove(k0, kind_pred(t2), j2 as int);
        }
        k0.remove_ensures(j2 as int);
        assert forall|k: int| 0 <= k < kinds@.len() implies #[trigger] kinds@[k] != PieceType::Flag
            && kinds@[k] != PieceType::Landmine && kinds@[k] != PieceType::Bomb by {
            if k < j2 {
                assert(kinds@[k] == k0[k]);
            } else {
                assert(kinds@[k] == k0[k + 1]);
            }
        }
        lemma_remove_keeps(p0, j1 as int);
        assert forall|k: int| 0 <= k < pool@.len() implies playable(c, #[trigger] pool@[k] as int)
            && board@[pool@[k] as int] is None by {
            assert(p0.contains(pool@[k]));
            let w2 = choose|w2: int| 0 <= w2 < p0.len() && p0[w2] == pool@[k];
            assert(playable(c, p0[w2] as int));
            assert(pool@[k] != p0[j1 as int]);
            assert(b0[p0[w2] as int] is None);
        }
        assert(placement_ok(Piece { ty, color: c }, sq as int));
    }
    let ghost b1 = board@;
    let ghost k1 = kinds@;
    fill_rest(board, pool, kinds, rng, c);
    proof {
        assert((final(board)@, final(rng)@) == spec_fill(b0, p0, k0, x0, c));
        assert forall|c2: Color, t2: PieceType| #[trigger] piece_count(final(board)@, c2, t2)
            == piece_count(b0, c2, t2) + (if c2 == c {
            count_if(k0, kind_pred(t2)) as int
        } else {
            0int
        }) by {
            assert(piece_count(final(board)@, c2, t2) == piece_count(b1, c2, t2) + (if c2 == c {
                count_if(k1, kind_pred(t2)) as int
            } else {
                0int
            }));
        }
    }
}

/// Runs one side's whole placement: pool, Flag, three Landmines, two
/// Bombs, then every remaining piece. Adds exactly one quota of every
/// kind for `c`, touching only empty playable squares of `c`'s half.
fn place_side(board: &mut Vec<Option<Piece>>, rng: &mut PseudoRng, c: Color)
    requires
        old(board)@.len() == 65,
        forall|i: int| 0 <= i < 65 && in_own_half(c, i) ==> old(board)@[i] is None,
    ensures
        (final(board)@, final(rng)@) == spec_place_side(old(board)@, old(rng)@, c),
        final(board)@.len() == 65,
        forall|c2: Color, t: PieceType| #[trigger] piece_count(final(board)@, c2, t)
            == piece_count(old(board)@, c2, t) + (if c2 == c {
            quota(t) as int
        } else {
            0int
        }),
        forall|i: int| 0 <= i < 65 ==> final(board)@[i] == old(board)@[i] || (final(board)@[i]
            matches Some(p) && p.color == c && placement_ok(p, i)),
{
    proof {
        lemma_pool_facts(c);
        lemma_kinds_facts();
    }
    let ghost b0 = old(board)@;
    let ghost x0 = old(rng)@;
    let mut pool = side_pool(c);
    place_flag(board, &mut pool, rng, c);
    let ghost st1 = spec_flag_step(b0, x0, c);
    place_mine(board, &mut pool, rng, c);
    let ghost st2 = spec_draw_step(st1.0, st1.1, st1.2, c, back_sq_pred(c), PieceType::Landmine);
    place_mine(board, &mut pool, rng, c);
    let ghost st3 = spec_draw_step(st2.0, st2.1, st2.2, c, back_sq_pred(c), PieceType::Landmine);
    place_mine(board, &mut pool, rng, c);
    let ghost st4 = spec_draw_step(st3.0, st3.1, st3.2, c, back_sq_pred(c), PieceType::Landmine);
    place_bomb(board, &mut pool, rng, c);
    let ghost st5 = spec_draw_step(st4.0, st4.1, st4.2, c, non_first_sq_pred(c), PieceType::Bomb);
    place_bomb(board, &mut pool, rng, c);
    let ghost st6 = spec_draw_step(st5.0, st5.1, st5.2, c, non_first_sq_pred(c), PieceType::Bomb);
    let ghost b6 = board@;
    let mut kinds = kinds_list();
    fill_rest(board, &mut pool, &mut kinds, rng, c);
    proof {
        assert((final(board)@, final(rng)@) == spec_fill(st6.0, st6.1, spec_kinds(), st6.2, c));
        assert((final(board)@, final(rng)@) == spec_place_side(b0, x0, c));
        assert forall|c2: Color, t: PieceType| #[trigger] piece_count(final(board)@, c2, t)
            == piece_count(b0, c2, t) + (if c2 == c {
            quota(t) as int
        } else {
            0int
        }) by {
            assert(count_if(spec_kinds(), kind_pred(t)) == (if t == PieceType::Flag || t
                == PieceType::Landmine || t == PieceType::Bomb {
                0int
            } else {
                quota(t) as int
            }));
        }
    }
}

// ---------------------------------------------------------------------------
// Laws of the validator and the generator
// ---------------------------------------------------------------------------

/// Law: generation is deterministic in the seed. Two states generated
/// from the same seed agree on the side to move and on every square, on
/// every run and every platform, since `random_start` pins both to a
/// function of the seed alone.
pub proof fn lemma_generation_deterministic(a: GameState, b: GameState, seed: u64)
    requires
        a.turn == Color::Red,
        a.board@ == spec_start_board(seed),
        b.turn == Color::Red,
        b.board@ == spec_start_board(seed),
    ensures
        a.turn == b.turn,
        a.board@ == b.board@,
{
}

/// Law: adding one more piece to a legal state — on any empty square,
/// of any kind and side — makes it illegal: that side then exceeds the
/// quota of that kind.
pub proof fn lemma_added_piece_illegal(s: GameState, s2: GameState, i: int, p: Piece)
    requires
        spec_startpos_legal(s),
        0 <= i < 65,
        s.board@[i] is None,
        s2.board@ == s.board@.update(i, Some(p)),
    ensures
        !spec_startpos_legal(s2),
{
    let pr = piece_pred(p.color, p.ty);
    assert(piece_count(s.board@, p.color, p.ty) == quota(p.ty));
    assert(!pr(s.board@[i]));
    assert(p == Piece { ty: p.ty, color: p.color });
    assert(pr(Some(p)));
    lemma_count_update(s.board@, pr, i, Some(p));
    assert(piece_count(s2.board@, p.color, p.ty) == quota(p.ty) + 1);
}

/// Law: duplicating a piece of a legal state onto another occupied
/// square makes it illegal: the duplicated piece then exceeds its quota.
pub proof fn lemma_duplicated_piece_illegal(s: GameState, s2: GameState, i: int, j: int)
    requires
        spec_startpos_legal(s),
        0 <= i < 65,
        0 <= j < 65,
        i != j,
        s.board@[i] is Some,
        s.board@[j] is Some,
        s.board@[i] != s.board@[j],
        s2.board@ == s.board@.update(j, s.board@[i]),
    ensures
        !spec_startpos_legal(s2),
{
    let p = s.board@[i]->Some_0;
    let pr = piece_pred(p.color, p.ty);
    assert(piece_count(s.board@, p.color, p.ty) == quota(p.ty));
    assert(!pr(s.board@[j]));
    assert(p == Piece { ty: p.ty, color: p.color });
    assert(pr(s.board@[i]));
    lemma_count_update(s.board@, pr, j, s.board@[i]);
    assert(piece_count(s2.board@, p.color, p.ty) == quota(p.ty) + 1);
}

/// Law: a Bomb standing on a first-row square of its own side makes the
/// whole state illegal, whatever the other squares hold.
pub proof fn lemma_bomb_on_first_row_illegal(s: GameState, i: int)
    requires
        0 <= i < 65,
        s.board@.len() == 65,
        s.board@[i] matches Some(p) && p.ty == PieceType::Bomb && in_first_row(p.color, i),
    ensures
        !spec_startpos_legal(s),
{
}

/// Law: a Landmine standing outside its side's ten back-row squares
/// makes the whole state illegal, whatever the other squares hold.
pub proof fn lemma_landmine_off_back_rows_illegal(s: GameState, i: int)
    requires
        0 <= i < 65,
        s.board@.len() == 65,
        s.board@[i] matches Some(p) && p.ty == PieceType::Landmine && !in_back_rows(p.color, i),
    ensures
        !spec_startpos_legal(s),
{
}

/// Law: a Flag standing on neither HQ square of its side makes the
/// whole state illegal, whatever the other squares hold.
pub proof fn lemma_flag_off_hq_illegal(s: GameState, i: int)
    requires
        0 <= i < 65,
        s.board@.len() == 65,
        s.board@[i] matches Some(p) && p.ty == PieceType::Flag && !in_hq(p.color, i),
    ensures
        !spec_startpos_legal(s),
{
}

/// Law: swapping the pieces of two occupied squares of a legal state
/// keeps it legal exactly when each piece may stand on the other's
/// square; counts are unchanged by a swap. In particular a Bomb moved to
/// any own-side playable square off the first row, in exchange for a
/// piece allowed on the Bomb's old square, leaves the state legal.
pub proof fn lemma_swap_preserves_legal(s: GameState, s2: GameState, i: int, j: int)
    requires
        spec_startpos_legal(s),
        0 <= i < 65,
        0 <= j < 65,
        i != j,
        s.board@[i] matches Some(p) && placement_ok(p, j),
        s.board@[j] matches Some(q) && placement_ok(q, i),
        s2.board@ == s.board@.update(i, s.board@[j]).update(j, s.board@[i]),
    ensures
        spec_startpos_legal(s2),
{
    let b = s.board@;
    let b1 = b.update(i, b[j]);
    assert forall|c2: Color, t2: PieceType| #[trigger] piece_count(s2.board@, c2, t2) == quota(
        t2,
    ) by {
        assert(piece_count(b, c2, t2) == quota(t2));
        assert(b1[j] == b[j]);
        lemma_count_update(b, piece_pred(c2, t2), i, b[j]);
        lemma_count_update(b1, piece_pred(c2, t2), j, b[i]);
    }
}

impl GameState {
    /// A fresh state: every square empty, Red to move.
    pub fn new() -> (s: Self)
        ensures
            s.turn == Color::Red,
            s.board@ == empty_board(),
    {
        let mut board: Vec<Option<Piece>> = Vec::new();
        let mut i: usize = 0;
        while i < NUM_SQUARES
            invariant
                i <= 65,
                board@.len() == i,
                forall|j: int| 0 <= j < i ==> board@[j] is None,
            decreases 65 - i,
        {
            board.push(None);
            i = i + 1;
        }
        proof {
            assert(board@ =~= empty_board());
        }
        Self { turn: Color::Red, board }
    }

    /// Generate a random legal starting position using the provided seed.
    /// The result is always legal, holds exactly one quota of every kind
    /// for each side, and is a function of the seed alone.
    pub fn random_start(seed: u64) -> (s: GameState)
        ensures
            spec_startpos_legal(s),
            s.turn == Color::Red,
            s.board@ == spec_start_board(seed),
            forall|c: Color, t: PieceType| #[trigger] piece_count(s.board@, c, t) == quota(t),
    {
        let mut rng = PseudoRng::new(seed);
        let mut state = GameState::new();
        proof {
            assert forall|c2: Color, t2: PieceType| #[trigger] piece_count(empty_board(), c2, t2)
                == 0 by {
                lemma_count_zero(empty_board(), piece_pred(c2, t2));
            }
        }
        place_side(&mut state.board, &mut rng, Color::Red);
        place_side(&mut state.board, &mut rng, Color::Black);
        proof {
            assert(state.board@ == spec_start_board(seed));
        }
        state
    }

    /// Decides whether this state is a legal starting position.
    pub fn is_startpos_legal(&self) -> (legal: bool)
        ensures
            legal == spec_startpos_legal(*self),
    {
        if self.board.len() != NUM_SQUARES {
            return false;
        }
        let b = &self.board;
        let mut ok = counts_match(b, Color::Red, PieceType::Overall);
        ok = ok && counts_match(b, Color::Red, PieceType::Army);
        ok = ok && counts_match(b, Color::Red, PieceType::Division);
        ok = ok && counts_match(b, Color::Red, PieceType::Brigade);
        ok = ok && counts_match(b, Color::Red, PieceType::Regiment);
        ok = ok && counts_match(b, Color::Red, PieceType::Battalion);
        ok = ok && counts_match(b, Color::Red, PieceType::Company);
        ok = ok && counts_match(b, Color::Red, PieceType::Platoon);
        ok = ok && counts_match(b, Color::Red, PieceType::Engineer);
        ok = ok && counts_match(b, Color::Red, PieceType::Bomb);
        ok = ok && counts_match(b, Color::Red, PieceType::Landmine);
        ok = ok && counts_match(b, Color::Red, PieceType::Flag);
        ok = ok && counts_match(b, Color::Black, PieceType::Overall);
        ok = ok && counts_match(b, Color::Black, PieceType::Army);
        ok = ok && counts_match(b, Color::Black, PieceType::Division);
        ok = ok && counts_match(b, Color::Black, PieceType::Brigade);
        ok = ok && counts_match(b, Color::Black, PieceType::Regiment);
        ok = ok && counts_match(b, Color::Black, PieceType::Battalion);
        ok = ok && counts_match(b, Color::Black, PieceType::Company);
        ok = ok && counts_match(b, Color::Black, PieceType::Platoon);
        ok = ok && counts_match(b, Color::Black, PieceType::Engineer);
        ok = ok && counts_match(b, Color::Black, PieceType::Bomb);
        ok = ok && counts_match(b, Color::Black, PieceType::Landmine);
        ok = ok && counts_match(b, Color::Black, PieceType::Flag);
        if !ok {
            return false;
        }
        assert(counts_ok(self.board@));
        let mut i: usize = 0;
        while i < NUM_SQUARES
            invariant
                i <= 65,
                self.board@.len() == 65,
                counts_ok(self.board@),
                forall|j: int| #![trigger self.board@[j]] 0 <= j < i ==> (self.board@[j] matches Some(p)
                    ==> placement_ok(p, j)),
            decreases 65 - i,
        {
            match self.board[i] {
                Some(p) => {
                    if !placement_ok_exec(p, i as u8) {
                        return false;
                    }
                },
                None => {},
            }
            i = i + 1;
        }
        true
    }
}

} // verus!
