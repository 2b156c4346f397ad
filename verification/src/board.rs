//! Board-level game rules: sizes, players, pieces, and the board itself.

use vstd::prelude::*;
use vstd::arithmetic::div_mod::lemma_fundamental_div_mod;
use vstd::arithmetic::div_mod::lemma_fundamental_div_mod_converse_div;
use vstd::arithmetic::div_mod::lemma_fundamental_div_mod_converse_mod;
use rand::seq::SliceRandom;
use crate::count::count_val;
use crate::count::lemma_count_val_matches_multiset;
use crate::count::lemma_count_val_zero;
use crate::count::lemma_count_val_unique;

verus! {

broadcast use crate::count::lemma_count_val_push;

/// How many players take part in a session.
#[derive(Debug, Clone, Copy, PartialEq, Eq, Structural)]
pub enum GameMode {
    TwoPlayers,
    FourPlayers,
}

/// The two supported square grids: 4x4 and 6x6.
#[derive(Debug, Clone, Copy, PartialEq, Eq, Structural)]
pub enum BoardSize {
    Small,
    Large,
}

impl BoardSize {
    /// Length of one side of the square grid.
    pub open spec fn side(self) -> int {
        match self {
            BoardSize::Small => 4,
            BoardSize::Large => 6,
        }
    }

    /// (rows, cols) of the grid for this size.
    pub fn dimensions(&self) -> (d: (usize, usize))
        ensures
            d.0 == self.side(),
            d.1 == self.side(),
    {
        match self {
            BoardSize::Small => (4, 4),
            BoardSize::Large => (6, 6),
        }
    }
}

/// The players, in turn order.
#[derive(Debug, Clone, Copy, PartialEq, Eq, Hash, Structural)]
pub enum Player {
    First,
    Second,
    Third,
    Fourth,
}

/// The axis along which a player may slide the marker.
#[derive(Debug, Clone, Copy, PartialEq, Eq, Structural)]
pub enum MoveDirection {
    Horizontal,
    Vertical,
}

impl Player {
    /// The axis assigned to this player: odd-numbered players move the
    /// marker along its row, even-numbered ones along its column.
    pub open spec fn spec_direction(&self) -> MoveDirection {
        match self {
            Player::First | Player::Third => MoveDirection::Horizontal,
            Player::Second | Player::Fourth => MoveDirection::Vertical,
        }
    }

    #[verifier::when_used_as_spec(spec_direction)]
    pub fn direction(&self) -> (d: MoveDirection)
        ensures
            d == self.spec_direction(),
    {
        match self {
            Player::First | Player::Third => MoveDirection::Horizontal,
            Player::Second | Player::Fourth => MoveDirection::Vertical,
        }
    }

    /// Successor in the four-player cycle.
    pub open spec fn spec_next(&self) -> Player {
        match self {
            Player::First => Player::Second,
            Player::Second => Player::Third,
            Player::Third => Player::Fourth,
            Player::Fourth => Player::First,
        }
    }

    #[verifier::when_used_as_spec(spec_next)]
    pub fn next(&self) -> (p: Player)
        ensures
            p == self.spec_next(),
    {
        match self {
            Player::First => Player::Second,
            Player::Second => Player::Third,
            Player::Third => Player::Fourth,
            Player::Fourth => Player::First,
        }
    }

    /// Successor when only the first two players take part. The marker
    /// simply alternates between them; the last two players never hold a
    /// turn in that mode, so they fall back to the first player's side.
    pub open spec fn spec_next_two_player(&self) -> Player {
        match self {
            Player::First => Player::Second,
            Player::Second => Player::First,
            _ => Player::First,
        }
    }

    #[verifier::when_used_as_spec(spec_next_two_player)]
    pub fn next_two_player(&self) -> (p: Player)
        ensures
            p == self.spec_next_two_player(),
    {
        match self {
            Player::First => Player::Second,
            Player::Second => Player::First,
            _ => Player::First,
        }
    }

    /// The active player list of a mode, in turn order.
    pub open spec fn mode_players(game_mode: GameMode) -> Seq<Player> {
        match game_mode {
            GameMode::TwoPlayers => seq![Player::First, Player::Second],
            GameMode::FourPlayers => seq![
                Player::First,
                Player::Second,
                Player::Third,
                Player::Fourth,
            ],
        }
    }

    pub fn get_players(game_mode: GameMode) -> (players: Vec<Player>)
        ensures
            players@ == Self::mode_players(game_mode),
    {
        let mut players: Vec<Player> = Vec::new();
        players.push(Player::First);
        players.push(Player::Second);
        if let GameMode::FourPlayers = game_mode {
            players.push(Player::Third);
            players.push(Player::Fourth);
        }
        proof {
            assert(players@ =~= Self::mode_players(game_mode));
        }
        players
    }

    /// This player's fixed position in the turn order.
    pub open spec fn turn_position(&self) -> int {
        match self {
            Player::First => 0,
            Player::Second => 1,
            Player::Third => 2,
            Player::Fourth => 3,
        }
    }

    /// Successor under the rotation rule of `game_mode`.
    pub open spec fn spec_next_for_mode(&self, game_mode: GameMode) -> Player {
        match game_mode {
            GameMode::TwoPlayers => match self {
                Player::First => Player::Second,
                Player::Second => Player::First,
                Player::Third => Player::Fourth,
                Player::Fourth => Player::Third,
            },
            GameMode::FourPlayers => self.spec_next(),
        }
    }

    #[verifier::when_used_as_spec(spec_next_for_mode)]
    pub fn next_for_mode(&self, game_mode: GameMode) -> (p: Player)
        ensures
            p == self.spec_next_for_mode(game_mode),
    {
        match game_mode {
            GameMode::TwoPlayers => match self {
                Player::First => Player::Second,
                Player::Second => Player::First,
                Player::Third => Player::Fourth,
                Player::Fourth => Player::Third,
            },
            GameMode::FourPlayers => self.next(),
        }
    }
}

/// One mode-aware rotation step stays inside the active player list and
/// walks it cyclically: from the player at position `i` it reaches the
/// player at position `(i + 1) % len`.
pub proof fn lemma_rotation_follows_player_list(game_mode: GameMode, i: int)
    requires
        0 <= i < Player::mode_players(game_mode).len(),
    ensures
        Player::mode_players(game_mode)[i].spec_next_for_mode(game_mode)
            == Player::mode_players(game_mode)[(i + 1) % Player::mode_players(game_mode).len() as int],
{
    let n = Player::mode_players(game_mode).len() as int;
    match game_mode {
        GameMode::TwoPlayers => {
            assert(n == 2);
            assert(1int % 2 == 1 && 2int % 2 == 0) by (nonlinear_arith);
        }
        GameMode::FourPlayers => {
            assert(n == 4);
            assert(1int % 4 == 1 && 2int % 4 == 2 && 3int % 4 == 3 && 4int % 4 == 0)
                by (nonlinear_arith);
        }
    }
}

/// The active player list of a mode lists the players in turn order: the
/// player at position `i` has turn position `i`.
pub proof fn lemma_mode_player_position(game_mode: GameMode, i: int)
    requires
        0 <= i < Player::mode_players(game_mode).len(),
    ensures
        Player::mode_players(game_mode)[i].turn_position() == i,
{
}

/// What one cell of the grid holds.
#[derive(Debug, Clone, Copy, PartialEq, Eq, Structural)]
pub enum Piece {
    /// A capturable tile worth the given value (negative on the large board).
    Number(i32),
    /// The single movable marker.
    Cross,
    /// A cell whose tile has been captured.
    Empty,
}

/// The one recoverable failure: a move to a cell that is not currently a
/// legal destination (wrong line, the marker's own cell, out of bounds, or
/// an already-empty cell). The presentation layer renders the reason.
#[derive(Debug, Clone, Copy, PartialEq, Eq)]
pub struct InvalidMoveError {
    pub target: (usize, usize),
}

/// How many copies of each piece a fresh board of the given size holds.
///
/// The small board carries the values one to seven twice each, one eight,
/// and the marker. The large board carries one to nine twice each, minus
/// one to minus ten once each, one ten, the marker, and - to fill the
/// thirty-six cells - one extra copy of each value one to six. The filler
/// makes the large table deliberately asymmetric; it is kept as the game
/// defines it.
pub open spec fn tile_count(size: BoardSize, p: Piece) -> nat {
    match size {
        BoardSize::Small => match p {
            Piece::Number(v) => if 1 <= v <= 7 {
                2nat
            } else if v == 8 {
                1nat
            } else {
                0nat
            },
            Piece::Cross => 1nat,
            Piece::Empty => 0nat,
        },
        BoardSize::Large => match p {
            Piece::Number(v) => if 1 <= v <= 6 {
                3nat
            } else if 7 <= v <= 9 {
                2nat
            } else if v == 10 {
                1nat
            } else if -10 <= v <= -1 {
                1nat
            } else {
                0nat
            },
            Piece::Cross => 1nat,
            Piece::Empty => 0nat,
        },
    }
}

/// Row-major cell addressing stays inside the grid and is injective.
pub proof fn lemma_cell_index(side: int, r: int, c: int)
    by (nonlinear_arith)
    requires
        0 <= r < side,
        0 <= c < side,
    ensures
        0 <= r * side + c < side * side,
{
}

/// The grid of one round: a row-major list of `side * side` cells plus the
/// marker's current position.
pub struct Board {
    pub size: BoardSize,
    pub pieces: Vec<Piece>,
    pub cross_position: (usize, usize),
}

impl Board {
    /// Length of one side of this board's square grid.
    pub open spec fn side(self) -> int {
        self.size.side()
    }

    /// The cells, row-major.
    pub open spec fn grid(self) -> Seq<Piece> {
        self.pieces@
    }

    pub open spec fn in_bounds(self, t: (usize, usize)) -> bool {
        t.0 < self.side() && t.1 < self.side()
    }

    /// The piece at cell `t` (row, column).
    pub open spec fn at(self, t: (usize, usize)) -> Piece {
        self.grid()[(t.0 as int) * self.side() + (t.1 as int)]
    }

    /// The grid has the cell count of its size and the marker position is a
    /// real cell.
    pub open spec fn dims_ok(self) -> bool {
        &&& self.grid().len() == self.side() * self.side()
        &&& self.in_bounds(self.cross_position)
    }

    /// The marker position holds the marker, and no other cell does.
    pub open spec fn cross_ok(self) -> bool {
        &&& self.at(self.cross_position) == Piece::Cross
        &&& forall|t: (usize, usize)|
            self.in_bounds(t) && t != self.cross_position ==> #[trigger] self.at(t) != Piece::Cross
    }

    /// The board invariant: well-sized, and exactly one cell holds the marker.
    pub open spec fn wf(self) -> bool {
        self.dims_ok() && self.cross_ok()
    }

    /// Flat index of cell (row, col), proven in range.
    fn cell_idx(&self, row: usize, col: usize) -> (idx: usize)
        requires
            self.dims_ok(),
            row < self.side(),
            col < self.side(),
        ensures
            idx == (row as int) * self.side() + (col as int),
            idx < self.grid().len(),
    {
        let n = self.pieces.len();
        proof {
            lemma_cell_index(self.side(), row as int, col as int);
        }
        let (_, cols) = self.size.dimensions();
        row * cols + col
    }

    /// Builds the unshuffled tile list of a size: exactly the multiset that
    /// `tile_count` describes, one piece per cell.
    fn build_tiles(size: BoardSize) -> (tiles: Vec<Piece>)
        ensures
            tiles@.len() == size.side() * size.side(),
            forall|p: Piece| #[trigger] count_val(tiles@, p) == tile_count(size, p),
    {
        let mut tiles: Vec<Piece> = Vec::new();
        match size {
            BoardSize::Small => {
                let mut v: i32 = 1;
                while v <= 7
                    invariant
                        1 <= v <= 8,
                        tiles@.len() == 2 * (v - 1),
                        forall|p: Piece|
                            count_val(tiles@, p) == (match p {
                                Piece::Number(w) => if 1 <= w < v {
                                    2nat
                                } else {
                                    0nat
                                },
                                _ => 0nat,
                            }),
                    decreases 8 - v,
                {
                    tiles.push(Piece::Number(v));
                    tiles.push(Piece::Number(v));
                    v = v + 1;
                }
                tiles.push(Piece::Number(8));
                tiles.push(Piece::Cross);
            }
            BoardSize::Large => {
                let mut v: i32 = 1;
                while v <= 9
                    invariant
                        1 <= v <= 10,
                        tiles@.len() == 2 * (v - 1),
                        forall|p: Piece|
                            count_val(tiles@, p) == (match p {
                                Piece::Number(w) => if 1 <= w < v {
                                    2nat
                                } else {
                                    0nat
                                },
                                _ => 0nat,
                            }),
                    decreases 10 - v,
                {
                    tiles.push(Piece::Number(v));
                    tiles.push(Piece::Number(v));
                    v = v + 1;
                }
                let mut w: i32 = 1;
                while w <= 10
                    invariant
                        1 <= w <= 11,
                        tiles@.len() == 18 + (w - 1),
                        forall|p: Piece|
                            count_val(tiles@, p) == (match p {
                                Piece::Number(u) => (if 1 <= u <= 9 {
                                    2nat
                                } else {
                                    0nat
                                }) + (if -w < u && u <= -1 {
                                    1nat
                                } else {
                                    0nat
                                }),
                                _ => 0nat,
                            }),
                    decreases 11 - w,
                {
                    tiles.push(Piece::Number(-w));
                    w = w + 1;
                }
                tiles.push(Piece::Number(10));
                tiles.push(Piece::Cross);
                let mut f: i32 = 1;
                while f <= 6
                    invariant
                        1 <= f <= 7,
                        tiles@.len() == 30 + (f - 1),
                        forall|p: Piece|
                            count_val(tiles@, p) == (match p {
                                Piece::Number(u) => (if 1 <= u <= 9 {
                                    2nat
                                } else {
                                    0nat
                                }) + (if -10 <= u <= -1 {
                                    1nat
                                } else {
                                    0nat
                                }) + (if u == 10 {
                                    1nat
                                } else {
                                    0nat
                                }) + (if 1 <= u < f {
                                    1nat
                                } else {
                                    0nat
                                }),
                                Piece::Cross => 1nat,
                                Piece::Empty => 0nat,
                            }),
                    decreases 7 - f,
                {
                    tiles.push(Piece::Number(f));
                    f = f + 1;
                }
            }
        }
        tiles
    }

    /// Relies on rand's `SliceRandom::shuffle`: a Fisher-Yates shuffle that
    /// only swaps elements of the slice in place, so the result is a
    /// permutation of the input - the multiset of pieces is unchanged.
    /// Which permutation comes out depends on the thread-local generator.
    #[verifier::external_body]
    fn shuffle_pieces(tiles: &mut Vec<Piece>)
        ensures
            final(tiles)@.to_multiset() == old(tiles)@.to_multiset(),
    {
        tiles.shuffle(&mut rand::thread_rng());
    }

    /// A fresh board: the tile multiset of `size`, shuffled uniformly over
    /// the grid, with the marker position recording where the single cross
    /// landed. Every cell is filled, so the census of a fresh board is
    /// exactly `tile_count`.
    #[verifier::loop_isolation(false)]
    pub fn new(size: BoardSize) -> (board: Board)
        ensures
            board.wf(),
            board.size == size,
            forall|p: Piece| #[trigger] count_val(board.grid(), p) == tile_count(size, p),
    {
        let (_, cols) = size.dimensions();
        let mut tiles = Self::build_tiles(size);
        let ghost tiles0 = tiles@;
        Self::shuffle_pieces(&mut tiles);
        proof {
            broadcast use vstd::seq_lib::group_to_multiset_ensures;

            assert forall|p: Piece| #[trigger] count_val(tiles@, p) == tile_count(size, p) by {
                lemma_count_val_matches_multiset(tiles0, p);
                lemma_count_val_matches_multiset(tiles@, p);
            }
            assert(tiles@.len() == tiles0.len()) by {
                assert(tiles@.to_multiset().len() == tiles@.len());
                assert(tiles0.to_multiset().len() == tiles0.len());
            }
        }
        let n = tiles.len();
        let mut i: usize = 0;
        let mut cross_idx: usize = 0;
        let mut found: bool = false;
        while i < n
            invariant
                n == tiles@.len(),
                i <= n,
                found ==> cross_idx < n && tiles@[cross_idx as int] == Piece::Cross,
                !found ==> forall|k: int| 0 <= k < i ==> tiles@[k] != Piece::Cross,
            decreases n - i,
        {
            if tiles[i] == Piece::Cross {
                cross_idx = i;
                found = true;
            }
            i = i + 1;
        }
        proof {
            assert(count_val(tiles@, Piece::Cross) == 1) by {
                lemma_count_val_matches_multiset(tiles0, Piece::Cross);
                lemma_count_val_matches_multiset(tiles@, Piece::Cross);
                assert(tile_count(size, Piece::Cross) == 1);
                assert(count_val(tiles0, Piece::Cross) == 1);
                assert(tiles@.to_multiset() == tiles0.to_multiset());
            }
            if !found {
                assert(forall|k: int| 0 <= k < tiles@.len() ==> tiles@[k] != Piece::Cross);
                lemma_count_val_zero(tiles@, Piece::Cross);
                assert(false);
            }
        }
        let row = cross_idx / cols;
        let col = cross_idx % cols;
        let board = Board { size, pieces: tiles, cross_position: (row, col) };
        proof {
            let side = size.side();
            assert(side == 4 || side == 6);
            lemma_fundamental_div_mod(cross_idx as int, side);
            assert((row as int) * side + (col as int) == cross_idx as int) by (nonlinear_arith)
                requires
                    cross_idx as int == side * (cross_idx as int / side) + (cross_idx as int % side),
                    row as int == cross_idx as int / side,
                    col as int == cross_idx as int % side,
            ;
            assert(board.at(board.cross_position) == Piece::Cross);
            assert forall|t: (usize, usize)|
                board.in_bounds(t) && t != board.cross_position implies #[trigger] board.at(t)
                != Piece::Cross by {
                if board.at(t) == Piece::Cross {
                    let k = (t.0 as int) * side + (t.1 as int);
                    lemma_cell_index(side, t.0 as int, t.1 as int);
                    lemma_count_val_unique(tiles@, Piece::Cross, k, cross_idx as int);
                    lemma_fundamental_div_mod_converse_div(k, side, t.0 as int, t.1 as int);
                    lemma_fundamental_div_mod_converse_mod(k, side, t.0 as int, t.1 as int);
                }
            }
        }
        board
    }

    /// No numbered tile is left on the grid: the round is over.
    pub open spec fn no_tiles_left(self) -> bool {
        forall|k: int| 0 <= k < self.grid().len() ==> !((#[trigger] self.grid()[k]) is Number)
    }

    /// `target` is a legal destination for `player`: a real cell on the
    /// player's line through the marker, other than the marker's own cell,
    /// and not already empty.
    pub open spec fn is_valid_target(self, player: Player, target: (usize, usize)) -> bool {
        &&& self.in_bounds(target)
        &&& (match player.spec_direction() {
            MoveDirection::Horizontal => target.0 == self.cross_position.0 && target.1
                != self.cross_position.1,
            MoveDirection::Vertical => target.1 == self.cross_position.1 && target.0
                != self.cross_position.0,
        })
        &&& self.at(target) != Piece::Empty
    }

    /// The piece at (row, col); `Empty` for out-of-bounds coordinates, as a
    /// defensive default for presentation callers.
    pub fn get_piece(&self, row: usize, col: usize) -> (p: Piece)
        requires
            self.dims_ok(),
        ensures
            p == (if self.in_bounds((row, col)) {
                self.at((row, col))
            } else {
                Piece::Empty
            }),
    {
        let (rows, cols) = self.size.dimensions();
        if row < rows && col < cols {
            let idx = self.cell_idx(row, col);
            self.pieces[idx]
        } else {
            Piece::Empty
        }
    }

    /// Writes one cell directly - scenario setup for tests, not part of
    /// play. Writing the marker also moves the recorded marker position, so
    /// the previous marker cell, if any, must be cleared by the caller for
    /// the board to stay well-formed. Out-of-bounds writes do nothing.
    pub fn set_piece(&mut self, row: usize, col: usize, piece: Piece)
        requires
            old(self).dims_ok(),
        ensures
            final(self).size == old(self).size,
            final(self).dims_ok(),
            old(self).in_bounds((row, col)) ==> {
                &&& final(self).at((row, col)) == piece
                &&& forall|t: (usize, usize)|
                    old(self).in_bounds(t) && t != (row, col) ==> final(self).at(t) == old(
                        self,
                    ).at(t)
                &&& final(self).cross_position == (if piece == Piece::Cross {
                    (row, col)
                } else {
                    old(self).cross_position
                })
            },
            !old(self).in_bounds((row, col)) ==> *final(self) == *old(self),
    {
        let (rows, cols) = self.size.dimensions();
        if row < rows && col < cols {
            let idx = self.cell_idx(row, col);
            self.pieces[idx] = piece;
            if piece == Piece::Cross {
                self.cross_position = (row, col);
            }
            proof {
                assert forall|t: (usize, usize)|
                    old(self).in_bounds(t) && t != (row, col) implies final(self).at(t) == old(
                    self,
                ).at(t) by {
                    lemma_cell_index(self.side(), t.0 as int, t.1 as int);
                    lemma_cell_index_injective(
                        self.side(),
                        t.0 as int,
                        t.1 as int,
                        row as int,
                        col as int,
                    );
                }
            }
        }
    }

    /// Every legal destination for `player`, in ascending order along the
    /// player's axis: exactly the other, non-empty cells of the marker's
    /// row (horizontal player) or column (vertical player).
    #[verifier::loop_isolation(false)]
    pub fn get_valid_moves(&self, player: Player) -> (moves: Vec<(usize, usize)>)
        requires
            self.dims_ok(),
        ensures
            forall|k: int|
                0 <= k < moves@.len() ==> self.is_valid_target(player, #[trigger] moves@[k]),
            forall|t: (usize, usize)| self.is_valid_target(player, t) ==> moves@.contains(t),
            player.spec_direction() == MoveDirection::Horizontal ==> forall|k1: int, k2: int|
                0 <= k1 < k2 < moves@.len() ==> (#[trigger] moves@[k1]).1 < (#[trigger] moves@[k2]).1,
            player.spec_direction() == MoveDirection::Vertical ==> forall|k1: int, k2: int|
                0 <= k1 < k2 < moves@.len() ==> (#[trigger] moves@[k1]).0 < (#[trigger] moves@[k2]).0,
    {
        broadcast use vstd::seq_lib::lemma_seq_contains_after_push;

        let (rows, cols) = self.size.dimensions();
        let (cross_row, cross_col) = self.cross_position;
        let mut moves: Vec<(usize, usize)> = Vec::new();
        match player.direction() {
            MoveDirection::Horizontal => {
                let mut c: usize = 0;
                while c < cols
                    invariant
                        c <= cols,
                        forall|k: int|
                            0 <= k < moves@.len() ==> self.is_valid_target(
                                player,
                                #[trigger] moves@[k],
                            ),
                        forall|t: (usize, usize)|
                            self.is_valid_target(player, t) && t.1 < c ==> moves@.contains(t),
                        forall|k: int| 0 <= k < moves@.len() ==> (#[trigger] moves@[k]).1 < c,
                        forall|k1: int, k2: int|
                            0 <= k1 < k2 < moves@.len() ==> (#[trigger] moves@[k1]).1 < (
                            #[trigger] moves@[k2]).1,
                    decreases cols - c,
                {
                    if c != cross_col {
                        let idx = self.cell_idx(cross_row, c);
                        if self.pieces[idx] != Piece::Empty {
                            moves.push((cross_row, c));
                        }
                    }
                    proof {
                        assert forall|t: (usize, usize)|
                            self.is_valid_target(player, t) && t.1 < c + 1 implies moves@.contains(
                            t,
                        ) by {
                            if t.1 == c {
                                assert(t == (cross_row, c));
                                assert(moves@.last() == t);
                            }
                        }
                    }
                    c = c + 1;
                }
            }
            MoveDirection::Vertical => {
                let mut r: usize = 0;
                while r < rows
                    invariant
                        r <= rows,
                        forall|k: int|
                            0 <= k < moves@.len() ==> self.is_valid_target(
                                player,
                                #[trigger] moves@[k],
                            ),
                        forall|t: (usize, usize)|
                            self.is_valid_target(player, t) && t.0 < r ==> moves@.contains(t),
                        forall|k: int| 0 <= k < moves@.len() ==> (#[trigger] moves@[k]).0 < r,
                        forall|k1: int, k2: int|
                            0 <= k1 < k2 < moves@.len() ==> (#[trigger] moves@[k1]).0 < (
                            #[trigger] moves@[k2]).0,
                    decreases rows - r,
                {
                    if r != cross_row {
                        let idx = self.cell_idx(r, cross_col);
                        if self.pieces[idx] != Piece::Empty {
                            moves.push((r, cross_col));
                        }
                    }
                    proof {
                        assert forall|t: (usize, usize)|
                            self.is_valid_target(player, t) && t.0 < r + 1 implies moves@.contains(
                            t,
                        ) by {
                            if t.0 == r {
                                assert(t == (r, cross_col));
                                assert(moves@.last() == t);
                            }
                        }
                    }
                    r = r + 1;
                }
            }
        }
        moves
    }

    /// Executes one move: if `target` is a legal destination for `player`,
    /// the marker's old cell becomes empty, `target` becomes the marker,
    /// and the piece that was at `target` is returned as the capture.
    /// Otherwise the board is unchanged and the move is rejected. This is
    /// the sole mutation of board contents during play, and it keeps the
    /// board well-formed.
    pub fn make_move(&mut self, player: Player, target: (usize, usize)) -> (r: Result<
        Piece,
        InvalidMoveError,
    >)
        requires
            old(self).dims_ok(),
        ensures
            final(self).size == old(self).size,
            final(self).dims_ok(),
            old(self).is_valid_target(player, target) ==> {
                &&& r == Ok::<Piece, InvalidMoveError>(old(self).at(target))
                &&& final(self).cross_position == target
                &&& final(self).at(target) == Piece::Cross
                &&& final(self).at(old(self).cross_position) == Piece::Empty
                &&& forall|t: (usize, usize)|
                    old(self).in_bounds(t) && t != target && t != old(self).cross_position
                        ==> final(self).at(t) == old(self).at(t)
                &&& (old(self).wf() ==> final(self).wf())
            },
            !old(self).is_valid_target(player, target) ==> r == Err::<Piece, InvalidMoveError>(
                InvalidMoveError { target },
            ) && *final(self) == *old(self),
    {
        let (rows, cols) = self.size.dimensions();
        let (cross_row, cross_col) = self.cross_position;
        let (target_row, target_col) = target;
        let in_line = match player.direction() {
            MoveDirection::Horizontal => target_row == cross_row && target_col != cross_col,
            MoveDirection::Vertical => target_col == cross_col && target_row != cross_row,
        };
        if target_row < rows && target_col < cols && in_line {
            let target_idx = self.cell_idx(target_row, target_col);
            let piece = self.pieces[target_idx];
            if piece != Piece::Empty {
                let cross_idx = self.cell_idx(cross_row, cross_col);
                proof {
                    lemma_cell_index_injective(
                        self.side(),
                        target_row as int,
                        target_col as int,
                        cross_row as int,
                        cross_col as int,
                    );
                }
                self.pieces[cross_idx] = Piece::Empty;
                self.pieces[target_idx] = Piece::Cross;
                self.cross_position = (target_row, target_col);
                proof {
                    assert forall|t: (usize, usize)|
                        old(self).in_bounds(t) && t != target && t != old(self).cross_position
                        implies final(self).at(t) == old(self).at(t) by {
                        lemma_cell_index(self.side(), t.0 as int, t.1 as int);
                        lemma_cell_index_injective(
                            self.side(),
                            t.0 as int,
                            t.1 as int,
                            target_row as int,
                            target_col as int,
                        );
                        lemma_cell_index_injective(
                            self.side(),
                            t.0 as int,
                            t.1 as int,
                            cross_row as int,
                            cross_col as int,
                        );
                    }
                }
                return Ok(piece);
            }
        }
        Err(InvalidMoveError { target })
    }

    /// True exactly when no numbered tile remains: every cell is empty or
    /// holds the marker.
    #[verifier::loop_isolation(false)]
    pub fn is_game_over(&self) -> (r: bool)
        requires
            self.dims_ok(),
        ensures
            r == self.no_tiles_left(),
    {
        let n = self.pieces.len();
        let mut i: usize = 0;
        while i < n
            invariant
                i <= n,
                forall|k: int| 0 <= k < i ==> !((#[trigger] self.grid()[k]) is Number),
            decreases n - i,
        {
            if let Piece::Number(_) = self.pieces[i] {
                return false;
            }
            i = i + 1;
        }
        true
    }
}

/// On a well-formed board, at every point in time exactly one cell holds
/// the marker: a cell holds it exactly when it is the recorded marker
/// position.
pub proof fn lemma_exactly_one_marker(b: Board, t: (usize, usize))
    requires
        b.wf(),
        b.in_bounds(t),
    ensures
        b.at(t) == Piece::Cross <==> t == b.cross_position,
{
}

/// A legal destination is never the marker's own cell and never a cell
/// that is currently empty.
pub proof fn lemma_valid_target_excludes(b: Board, player: Player, t: (usize, usize))
    requires
        b.is_valid_target(player, t),
    ensures
        t != b.cross_position,
        b.at(t) != Piece::Empty,
{
}

/// Census of a fresh small board: sixteen cells, of which fifteen hold
/// numbered tiles, one holds the marker, and none is empty.
pub proof fn lemma_small_board_census(b: Board)
    requires
        b.size == BoardSize::Small,
        b.dims_ok(),
        forall|p: Piece| #[trigger] count_val(b.grid(), p) == tile_count(BoardSize::Small, p),
    ensures
        b.grid().len() == 16,
        crate::count::count_numbers(b.grid()) == 15,
        count_val(b.grid(), Piece::Cross) == 1,
        count_val(b.grid(), Piece::Empty) == 0,
{
    assert(count_val(b.grid(), Piece::Cross) == 1);
    assert(count_val(b.grid(), Piece::Empty) == 0);
    crate::count::lemma_census_partition(b.grid());
}

/// Census of a fresh large board: thirty-six cells, exactly one marker,
/// no empty cell, and both a positive and a negative tile present.
pub proof fn lemma_large_board_census(b: Board)
    requires
        b.size == BoardSize::Large,
        b.dims_ok(),
        forall|p: Piece| #[trigger] count_val(b.grid(), p) == tile_count(BoardSize::Large, p),
    ensures
        b.grid().len() == 36,
        crate::count::count_numbers(b.grid()) == 35,
        count_val(b.grid(), Piece::Cross) == 1,
        count_val(b.grid(), Piece::Empty) == 0,
        exists|t: (usize, usize)|
            b.in_bounds(t) && ((#[trigger] b.at(t)) matches Piece::Number(v) && v > 0),
        exists|t: (usize, usize)|
            b.in_bounds(t) && ((#[trigger] b.at(t)) matches Piece::Number(v) && v < 0),
{
    assert(count_val(b.grid(), Piece::Cross) == 1);
    assert(count_val(b.grid(), Piece::Empty) == 0);
    assert(count_val(b.grid(), Piece::Number(1)) == 3);
    assert(count_val(b.grid(), Piece::Number(-1i32)) == 1);
    crate::count::lemma_census_partition(b.grid());
    lemma_cell_witness(b, Piece::Number(1));
    lemma_cell_witness(b, Piece::Number(-1i32));
}

/// The round is over exactly when no cell of the grid holds a numbered
/// tile: every cell is empty or holds the marker.
pub proof fn lemma_round_over_cells(b: Board)
    requires
        b.dims_ok(),
    ensures
        b.no_tiles_left() <==> (forall|t: (usize, usize)|
            b.in_bounds(t) ==> !((#[trigger] b.at(t)) is Number)),
{
    let side = b.side();
    if forall|t: (usize, usize)| b.in_bounds(t) ==> !((#[trigger] b.at(t)) is Number) {
        assert forall|k: int| 0 <= k < b.grid().len() implies !((#[trigger] b.grid()[k])
            is Number) by {
            lemma_fundamental_div_mod(k, side);
            let t = ((k / side) as usize, (k % side) as usize);
            assert(0 <= k / side < side && 0 <= k % side < side) by (nonlinear_arith)
                requires
                    0 <= k < side * side,
                    side > 0,
                    k == side * (k / side) + (k % side),
                    0 <= k % side < side,
            ;
            assert((t.0 as int) * side + (t.1 as int) == k) by (nonlinear_arith)
                requires
                    k == side * (k / side) + (k % side),
                    t.0 as int == k / side,
                    t.1 as int == k % side,
            ;
            assert(b.at(t) == b.grid()[k]);
        }
    }
    if b.no_tiles_left() {
        assert forall|t: (usize, usize)| b.in_bounds(t) implies !((#[trigger] b.at(t))
            is Number) by {
            lemma_cell_index(side, t.0 as int, t.1 as int);
        }
    }
}

/// A piece with a positive count sits at some cell of the board.
proof fn lemma_cell_witness(b: Board, p: Piece)
    requires
        b.dims_ok(),
        count_val(b.grid(), p) > 0,
    ensures
        exists|t: (usize, usize)| b.in_bounds(t) && #[trigger] b.at(t) == p,
{
    lemma_count_val_zero(b.grid(), p);
    let k = choose|k: int| 0 <= k < b.grid().len() && b.grid()[k] == p;
    let side = b.side();
    lemma_fundamental_div_mod(k, side);
    let t = ((k / side) as usize, (k % side) as usize);
    assert(0 <= k < side * side);
    assert(0 <= k / side < side && 0 <= k % side < side) by (nonlinear_arith)
        requires
            0 <= k < side * side,
            side > 0,
            k == side * (k / side) + (k % side),
            0 <= k % side < side,
    ;
    assert((t.0 as int) * side + (t.1 as int) == k) by (nonlinear_arith)
        requires
            k == side * (k / side) + (k % side),
            t.0 as int == k / side,
            t.1 as int == k % side,
    ;
    assert(b.in_bounds(t) && b.at(t) == p);
}

/// Distinct cells have distinct row-major indices.
pub proof fn lemma_cell_index_injective(side: int, r1: int, c1: int, r2: int, c2: int)
    by (nonlinear_arith)
    requires
        0 <= r1 < side,
        0 <= c1 < side,
        0 <= r2 < side,
        0 <= c2 < side,
    ensures
        (r1 * side + c1 == r2 * side + c2) <==> (r1 == r2 && c1 == c2),
{
}

} // verus!
