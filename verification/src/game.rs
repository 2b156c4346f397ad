//! Session-level rules: scores, turn rotation, rounds, winners, and the
//! event-producing manager around them.

use vstd::prelude::*;
use crate::board::Board;
use crate::board::BoardSize;
use crate::board::GameMode;
use crate::board::InvalidMoveError;
use crate::board::Piece;
use crate::board::Player;
use crate::board::tile_count;
use crate::count::count_val;
use crate::count::piece_value;
use crate::count::sum_values;

verus! {

broadcast use crate::count::lemma_sum_values_push;

/// One player's record for the current round: the captured pieces in
/// capture order, and the running total of their values.
pub struct PlayerScore {
    pub pieces: Vec<Piece>,
    pub total: i32,
}

impl PlayerScore {
    /// The running total is exactly the value of the captures so far.
    pub open spec fn wf(self) -> bool {
        self.total as int == sum_values(self.pieces@)
    }

    pub fn new() -> (s: PlayerScore)
        ensures
            s.wf(),
            s.pieces@ == Seq::<Piece>::empty(),
            s.total == 0,
    {
        PlayerScore { pieces: Vec::new(), total: 0 }
    }

    /// Records a capture: a numbered piece adds its value to the total;
    /// the piece is appended to the capture history either way.
    pub fn add_piece(&mut self, piece: Piece)
        requires
            old(self).wf(),
            i32::MIN <= old(self).total + piece_value(piece) <= i32::MAX,
        ensures
            final(self).wf(),
            final(self).pieces@ == old(self).pieces@.push(piece),
            final(self).total == old(self).total + piece_value(piece),
    {
        if let Piece::Number(value) = piece {
            self.total = self.total + value;
        }
        self.pieces.push(piece);
    }
}

/// Position `i` holds the strictly largest entry of `totals`.
pub open spec fn strict_max_at(totals: Seq<i32>, i: int) -> bool {
    &&& 0 <= i < totals.len()
    &&& forall|j: int| 0 <= j < totals.len() && j != i ==> totals[j] < totals[i]
}

/// What a reported winner means against a list of totals: the winning
/// player holds the strictly highest total; `None` means no player does
/// (a tie at the maximum).
pub open spec fn winner_ok(r: Option<Player>, players: Seq<Player>, totals: Seq<i32>) -> bool {
    match r {
        Some(p) => exists|i: int|
            #[trigger] strict_max_at(totals, i) && 0 <= i < players.len() && players[i] == p,
        None => forall|i: int| !strict_max_at(totals, i),
    }
}

/// One game in progress: the current round's board and scores, the turn
/// state, and the cumulative totals across rounds.
pub struct GameSession {
    pub board: Board,
    pub current_player: Player,
    pub scores: Vec<PlayerScore>,
    pub round: usize,
    pub total_scores: Vec<i32>,
    pub game_mode: GameMode,
    pub players: Vec<Player>,
}

impl GameSession {
    /// This round's totals, one per active player.
    pub open spec fn round_totals(self) -> Seq<i32> {
        Seq::new(self.scores@.len(), |i: int| self.scores@[i].total)
    }

    /// The session invariant: the player list is the mode's, the score
    /// tables run parallel to it, each score is internally consistent, the
    /// current player is active, and the board is well-sized.
    pub open spec fn wf(self) -> bool {
        &&& self.board.dims_ok()
        &&& self.players@ == Player::mode_players(self.game_mode)
        &&& self.scores@.len() == self.players@.len()
        &&& self.total_scores@.len() == self.players@.len()
        &&& (forall|i: int| 0 <= i < self.scores@.len() ==> (#[trigger] self.scores@[i]).wf())
        &&& self.current_player.turn_position() < self.players@.len()
        &&& self.round >= 1
    }

    /// The active player's position in the player list.
    pub open spec fn current_index(self) -> int {
        self.current_player.turn_position()
    }

    /// A session as `new` leaves it: fresh board of the asked size, round
    /// one, the first player to move, and every score at zero.
    pub open spec fn is_fresh(self, size: BoardSize, game_mode: GameMode) -> bool {
        &&& self.wf()
        &&& self.board.wf()
        &&& self.game_mode == game_mode
        &&& self.board.size == size
        &&& (forall|p: Piece| #[trigger] count_val(self.board.grid(), p) == tile_count(size, p))
        &&& self.starts_round_one()
    }

    /// Round one, first player to move, all scores and totals zero.
    pub open spec fn starts_round_one(self) -> bool {
        &&& self.round == 1
        &&& self.current_player == Player::First
        &&& (forall|i: int|
            0 <= i < self.scores@.len() ==> (#[trigger] self.scores@[i]).total == 0
                && self.scores@[i].pieces@ == Seq::<Piece>::empty())
        &&& (forall|i: int| 0 <= i < self.total_scores@.len() ==> #[trigger] self.total_scores@[i] == 0)
    }

    fn zero_scores(game_mode: GameMode) -> (r: (Vec<Player>, Vec<PlayerScore>, Vec<i32>))
        ensures
            r.0@ == Player::mode_players(game_mode),
            r.1@.len() == r.0@.len(),
            r.2@.len() == r.0@.len(),
            forall|i: int|
                0 <= i < r.1@.len() ==> (#[trigger] r.1@[i]).total == 0 && r.1@[i].pieces@
                    == Seq::<Piece>::empty(),
            forall|i: int| 0 <= i < r.2@.len() ==> #[trigger] r.2@[i] == 0,
    {
        let players = Player::get_players(game_mode);
        let n = players.len();
        let mut scores: Vec<PlayerScore> = Vec::new();
        let mut total_scores: Vec<i32> = Vec::new();
        let mut i: usize = 0;
        while i < n
            invariant
                i <= n,
                scores@.len() == i,
                total_scores@.len() == i,
                forall|j: int|
                    0 <= j < i ==> (#[trigger] scores@[j]).total == 0 && scores@[j].pieces@
                        == Seq::<Piece>::empty(),
                forall|j: int| 0 <= j < i ==> #[trigger] total_scores@[j] == 0,
            decreases n - i,
        {
            scores.push(PlayerScore::new());
            total_scores.push(0);
            i = i + 1;
        }
        (players, scores, total_scores)
    }

    /// A fresh session over a newly generated board of `size`.
    pub fn new(size: BoardSize, game_mode: GameMode) -> (s: GameSession)
        ensures
            s.is_fresh(size, game_mode),
    {
        let (players, scores, total_scores) = Self::zero_scores(game_mode);
        GameSession {
            board: Board::new(size),
            current_player: Player::First,
            scores,
            round: 1,
            total_scores,
            game_mode,
            players,
        }
    }

    /// A fresh session over a caller-supplied board - scripted scenarios.
    pub fn new_with_board(board: Board, game_mode: GameMode) -> (s: GameSession)
        requires
            board.dims_ok(),
        ensures
            s.wf(),
            s.board == board,
            s.game_mode == game_mode,
            s.starts_round_one(),
    {
        let (players, scores, total_scores) = Self::zero_scores(game_mode);
        GameSession {
            board,
            current_player: Player::First,
            scores,
            round: 1,
            total_scores,
            game_mode,
            players,
        }
    }

    /// The current player's slot in the score tables.
    fn current_slot(&self) -> (i: usize)
        requires
            self.wf(),
        ensures
            i == self.current_index(),
            i < self.scores@.len(),
    {
        match self.current_player {
            Player::First => 0,
            Player::Second => 1,
            Player::Third => 2,
            Player::Fourth => 3,
        }
    }

    /// What a move never touches: the mode, the player list, the round
    /// number, the cumulative totals, the board size, and the score-table
    /// length.
    pub open spec fn move_frame(pre: GameSession, post: GameSession) -> bool {
        &&& post.game_mode == pre.game_mode
        &&& post.players@ == pre.players@
        &&& post.round == pre.round
        &&& post.total_scores@ == pre.total_scores@
        &&& post.board.size == pre.board.size
        &&& post.scores@.len() == pre.scores@.len()
    }

    /// How a successful move to `target` transforms a session: the marker
    /// moves there, its old cell empties, every other cell keeps its piece,
    /// a numbered capture is appended to the mover's history and its exact
    /// value is added to the mover's round total, nobody else's score
    /// changes, and the turn passes under the mode's rotation.
    pub open spec fn moved(pre: GameSession, post: GameSession, target: (usize, usize)) -> bool {
        &&& post.current_player == pre.current_player.spec_next_for_mode(pre.game_mode)
        &&& post.board.cross_position == target
        &&& post.board.at(target) == Piece::Cross
        &&& post.board.at(pre.board.cross_position) == Piece::Empty
        &&& (forall|t: (usize, usize)|
            pre.board.in_bounds(t) && t != target && t != pre.board.cross_position
                ==> post.board.at(t) == pre.board.at(t))
        &&& (pre.board.wf() ==> post.board.wf())
        &&& post.scores@[pre.current_index()].pieces@ == (if pre.board.at(target) is Number {
            pre.scores@[pre.current_index()].pieces@.push(pre.board.at(target))
        } else {
            pre.scores@[pre.current_index()].pieces@
        })
        &&& post.scores@[pre.current_index()].total == pre.scores@[pre.current_index()].total
            + piece_value(pre.board.at(target))
        &&& (forall|j: int|
            0 <= j < pre.scores@.len() && j != pre.current_index() ==> post.scores@[j]
                == pre.scores@[j])
    }

    /// Applies a move by the current player. On success the capture is
    /// credited to that player and the turn passes under the mode's
    /// rotation; a rejected move changes nothing, and the turn does not
    /// pass.
    pub fn process_move(&mut self, target: (usize, usize)) -> (r: Result<(), InvalidMoveError>)
        requires
            old(self).wf(),
            old(self).board.is_valid_target(old(self).current_player, target) ==> i32::MIN <= old(self).scores@[old(self).current_index()].total + piece_value(old(self).board.at(target))
                <= i32::MAX,
        ensures
            final(self).wf(),
            Self::move_frame(*old(self), *final(self)),
            old(self).board.is_valid_target(old(self).current_player, target) ==> r == Ok::<
                (),
                InvalidMoveError,
            >(()) && Self::moved(*old(self), *final(self), target),
            !old(self).board.is_valid_target(old(self).current_player, target) ==> r == Err::<
                (),
                InvalidMoveError,
            >(InvalidMoveError { target }) && *final(self) == *old(self),
    {
        let player = self.current_player;
        match self.board.make_move(player, target) {
            Ok(piece) => {
                if let Piece::Number(_) = piece {
                    let i = self.current_slot();
                    self.scores[i].add_piece(piece);
                }
                self.current_player = self.current_player.next_for_mode(self.game_mode);
                Ok(())
            }
            Err(e) => Err(e),
        }
    }

    /// The round is over when the board holds no more numbered tiles.
    pub fn is_round_over(&self) -> (r: bool)
        requires
            self.board.dims_ok(),
        ensures
            r == self.board.no_tiles_left(),
    {
        self.board.is_game_over()
    }

    /// The position of the unique strictly largest entry, or `None` when
    /// two or more entries tie for the maximum.
    fn best_unique_index(totals: &Vec<i32>) -> (r: Option<usize>)
        requires
            totals@.len() >= 1,
        ensures
            match r {
                Some(i) => strict_max_at(totals@, i as int),
                None => forall|i: int| !strict_max_at(totals@, i),
            },
    {
        let n = totals.len();
        let mut best: usize = 0;
        let mut highest: i32 = totals[0];
        let mut tie: bool = false;
        let mut k: usize = 1;
        while k < n
            invariant
                1 <= k <= n,
                n == totals@.len(),
                best < k,
                highest == totals@[best as int],
                forall|j: int| 0 <= j < k ==> totals@[j] <= highest,
                tie ==> exists|j: int| 0 <= j < k && j != best && totals@[j] == highest,
                !tie ==> forall|j: int| 0 <= j < k && j != best ==> totals@[j] < highest,
            decreases n - k,
        {
            let t = totals[k];
            if t > highest {
                highest = t;
                best = k;
                tie = false;
            } else if t == highest {
                tie = true;
                proof {
                    assert(0 <= best < k && best != k && totals@[best as int] == highest);
                }
            }
            k = k + 1;
        }
        if tie {
            proof {
                let j0 = choose|j: int| 0 <= j < n && j != best && totals@[j] == highest;
                assert forall|i: int| !strict_max_at(totals@, i) by {
                    if strict_max_at(totals@, i) {
                        if i == best as int {
                            assert(totals@[j0] < totals@[i]);
                        } else {
                            assert(totals@[best as int] < totals@[i]);
                        }
                    }
                }
            }
            None
        } else {
            proof {
                assert(strict_max_at(totals@, best as int));
            }
            Some(best)
        }
    }

    /// The winner of the current round, or `None` while the round is still
    /// running or when the highest round total is shared.
    pub fn get_round_winner(&self) -> (r: Option<Player>)
        requires
            self.wf(),
        ensures
            !self.board.no_tiles_left() ==> r is None,
            self.board.no_tiles_left() ==> winner_ok(r, self.players@, self.round_totals()),
    {
        if !self.is_round_over() {
            return None;
        }
        let n = self.scores.len();
        let mut totals: Vec<i32> = Vec::new();
        let mut i: usize = 0;
        while i < n
            invariant
                i <= n,
                n == self.scores@.len(),
                totals@.len() == i,
                forall|j: int| 0 <= j < i ==> totals@[j] == self.round_totals()[j],
            decreases n - i,
        {
            totals.push(self.scores[i].total);
            i = i + 1;
        }
        proof {
            assert(totals@ =~= self.round_totals());
        }
        match Self::best_unique_index(&totals) {
            Some(i) => Some(self.players[i]),
            None => None,
        }
    }

    /// The overall winner on cumulative totals, or `None` when the highest
    /// cumulative total is shared. Reading it does not end the game.
    pub fn get_overall_winner(&self) -> (r: Option<Player>)
        requires
            self.wf(),
        ensures
            winner_ok(r, self.players@, self.total_scores@),
    {
        match Self::best_unique_index(&self.total_scores) {
            Some(i) => Some(self.players[i]),
            None => None,
        }
    }

    /// How `start_next_round` transforms a session: cumulative totals grow
    /// by exactly the round's totals, the round scores reset to empty, a
    /// fresh full board of the same size replaces the old one, the round
    /// counter moves up by one, and the player opening the new round
    /// rotates with the round number.
    pub open spec fn round_advanced(pre: GameSession, post: GameSession) -> bool {
        &&& post.wf()
        &&& post.board.wf()
        &&& post.game_mode == pre.game_mode
        &&& post.players@ == pre.players@
        &&& post.round == pre.round + 1
        &&& post.board.size == pre.board.size
        &&& (forall|p: Piece|
            #[trigger] count_val(post.board.grid(), p) == tile_count(pre.board.size, p))
        &&& post.total_scores@.len() == pre.total_scores@.len()
        &&& (forall|i: int|
            0 <= i < pre.total_scores@.len() ==> #[trigger] post.total_scores@[i]
                == pre.total_scores@[i] + pre.scores@[i].total)
        &&& post.scores@.len() == pre.scores@.len()
        &&& (forall|i: int|
            0 <= i < post.scores@.len() ==> (#[trigger] post.scores@[i]).total == 0
                && post.scores@[i].pieces@ == Seq::<Piece>::empty())
        &&& post.current_player == post.players@[(pre.round as int) % (post.players@.len() as int)]
    }

    /// Closes the current round and opens the next; see `round_advanced`.
    #[verifier::loop_isolation(false)]
    pub fn start_next_round(&mut self)
        requires
            old(self).wf(),
            old(self).round < usize::MAX,
            forall|i: int|
                0 <= i < old(self).scores@.len() ==> i32::MIN <= old(self).total_scores@[i] + (
                #[trigger] old(self).scores@[i]).total <= i32::MAX,
        ensures
            Self::round_advanced(*old(self), *final(self)),
    {
        let n = self.players.len();
        let mut i: usize = 0;
        while i < n
            invariant
                i <= n,
                self.scores@ == old(self).scores@,
                self.players@ == old(self).players@,
                self.board == old(self).board,
                self.round == old(self).round,
                self.game_mode == old(self).game_mode,
                self.current_player == old(self).current_player,
                self.total_scores@.len() == n,
                forall|j: int|
                    0 <= j < i ==> #[trigger] self.total_scores@[j] == old(self).total_scores@[j]
                        + old(self).scores@[j].total,
                forall|j: int|
                    i <= j < n ==> #[trigger] self.total_scores@[j] == old(self).total_scores@[j],
            decreases n - i,
        {
            let cur = self.total_scores[i];
            let round_score = self.scores[i].total;
            self.total_scores[i] = cur + round_score;
            i = i + 1;
        }
        let mut k: usize = 0;
        while k < n
            invariant
                k <= n,
                self.players@ == old(self).players@,
                self.board == old(self).board,
                self.round == old(self).round,
                self.game_mode == old(self).game_mode,
                self.current_player == old(self).current_player,
                self.total_scores@.len() == n,
                forall|j: int|
                    0 <= j < n ==> #[trigger] self.total_scores@[j] == old(self).total_scores@[j]
                        + old(self).scores@[j].total,
                self.scores@.len() == n,
                forall|j: int|
                    0 <= j < k ==> (#[trigger] self.scores@[j]).total == 0 && self.scores@[j].pieces@
                        == Seq::<Piece>::empty(),
            decreases n - k,
        {
            self.scores[k] = PlayerScore::new();
            k = k + 1;
        }
        self.board = Board::new(self.board.size);
        self.round = self.round + 1;
        let idx = (self.round - 1) % n;
        self.current_player = self.players[idx];
        proof {
            crate::board::lemma_mode_player_position(self.game_mode, idx as int);
        }
    }

    /// The given player's round total so far.
    pub fn round_score(&self, player: Player) -> (t: i32)
        requires
            self.wf(),
            player.turn_position() < self.players@.len(),
        ensures
            t == self.round_totals()[player.turn_position()],
    {
        let i: usize = match player {
            Player::First => 0,
            Player::Second => 1,
            Player::Third => 2,
            Player::Fourth => 3,
        };
        self.scores[i].total
    }

    /// The given player's cumulative total across finished rounds.
    pub fn cumulative_score(&self, player: Player) -> (t: i32)
        requires
            self.wf(),
            player.turn_position() < self.players@.len(),
        ensures
            t == self.total_scores@[player.turn_position()],
    {
        let i: usize = match player {
            Player::First => 0,
            Player::Second => 1,
            Player::Third => 2,
            Player::Fourth => 3,
        };
        self.total_scores[i]
    }

    /// The presentation label of a player under this session's mode.
    pub fn get_player_name(&self, player: Player) -> (name: String)
        ensures
            name@ == spec_player_name(self.game_mode, player),
    {
        match self.game_mode {
            GameMode::TwoPlayers => match player {
                Player::First => "プレイヤー1 (横)".to_string(),
                Player::Second => "プレイヤー2 (縦)".to_string(),
                Player::Third => "Third".to_string(),
                Player::Fourth => "Fourth".to_string(),
            },
            GameMode::FourPlayers => match player {
                Player::First => "プレイヤー1 (横)".to_string(),
                Player::Second => "プレイヤー2 (縦)".to_string(),
                Player::Third => "プレイヤー3 (横)".to_string(),
                Player::Fourth => "プレイヤー4 (縦)".to_string(),
            },
        }
    }
}

/// The label `get_player_name` returns: the two off-mode players of
/// two-player mode keep their bare enumeration names.
pub open spec fn spec_player_name(game_mode: GameMode, player: Player) -> Seq<char> {
    match player {
        Player::First => "プレイヤー1 (横)"@,
        Player::Second => "プレイヤー2 (縦)"@,
        Player::Third => if game_mode is FourPlayers {
            "プレイヤー3 (横)"@
        } else {
            "Third"@
        },
        Player::Fourth => if game_mode is FourPlayers {
            "プレイヤー4 (縦)"@
        } else {
            "Fourth"@
        },
    }
}

/// The per-player score list that round-end and game-end events carry:
/// each active player paired with the given total, in player-list order.
pub open spec fn score_pairs(players: Seq<Player>, totals: Seq<i32>) -> Seq<(Player, i32)> {
    Seq::new(players.len(), |i: int| (players[i], totals[i]))
}

/// One state change of the engine, as reported to the presentation layer.
/// Events are produced once per transition and carry everything a renderer
/// needs; the engine does not retain them.
#[derive(Debug)]
pub enum GameEvent {
    /// The game was started.
    GameStarted,
    /// The round with the given number was started.
    RoundStarted(usize),
    /// A player moved the marker to a cell and captured the piece there.
    MoveMade(Player, (usize, usize), Piece),
    /// A player's move to a cell was rejected.
    InvalidMove(Player, (usize, usize), InvalidMoveError),
    /// The round ended with an optional winner and the round's scores.
    RoundEnded(Option<Player>, Vec<(Player, i32)>),
    /// The game ended with an optional overall winner and the cumulative
    /// totals.
    GameEnded(Option<Player>, Vec<(Player, i32)>),
}

/// The externally driven face of the engine: it owns one session and turns
/// every operation's outcome into the exact list of events to publish, in
/// order. Callers (the presentation layer) deliver each returned list to
/// their listeners before the next operation.
pub struct GameManager {
    pub session: GameSession,
}

impl GameManager {
    pub fn new(size: BoardSize, game_mode: GameMode) -> (m: GameManager)
        ensures
            m.session.is_fresh(size, game_mode),
    {
        GameManager { session: GameSession::new(size, game_mode) }
    }

    pub fn new_with_board(board: Board, game_mode: GameMode) -> (m: GameManager)
        requires
            board.dims_ok(),
        ensures
            m.session.wf(),
            m.session.board == board,
            m.session.game_mode == game_mode,
            m.session.starts_round_one(),
    {
        GameManager { session: GameSession::new_with_board(board, game_mode) }
    }

    /// Starting the game announces it, then the current round, in that
    /// order.
    pub fn start_game(&self) -> (events: Vec<GameEvent>)
        ensures
            events@.len() == 2,
            events@[0] == GameEvent::GameStarted,
            events@[1] == GameEvent::RoundStarted(self.session.round),
    {
        let mut events: Vec<GameEvent> = Vec::new();
        events.push(GameEvent::GameStarted);
        events.push(GameEvent::RoundStarted(self.session.round));
        events
    }

    /// Applies a move and reports it: a successful move yields `MoveMade`
    /// with the mover, the target, and the captured piece, followed by
    /// `RoundEnded` exactly when the move cleared the last tile; a rejected
    /// move yields `InvalidMove` alone and changes nothing.
    pub fn make_move(&mut self, target: (usize, usize)) -> (events: Vec<GameEvent>)
        requires
            old(self).session.wf(),
            old(self).session.board.is_valid_target(old(self).session.current_player, target)
                ==> i32::MIN <= old(self).session.scores@[old(self).session.current_index()].total
                + piece_value(old(self).session.board.at(target)) <= i32::MAX,
        ensures
            final(self).session.wf(),
            GameSession::move_frame(old(self).session, final(self).session),
            old(self).session.board.is_valid_target(old(self).session.current_player, target)
                ==> {
                &&& GameSession::moved(old(self).session, final(self).session, target)
                &&& events@.len() >= 1
                &&& events@[0] == GameEvent::MoveMade(
                    old(self).session.current_player,
                    target,
                    old(self).session.board.at(target),
                )
                &&& (final(self).session.board.no_tiles_left() ==> {
                    &&& events@.len() == 2
                    &&& events@[1] is RoundEnded
                    &&& winner_ok(
                        events@[1]->RoundEnded_0,
                        final(self).session.players@,
                        final(self).session.round_totals(),
                    )
                    &&& events@[1]->RoundEnded_1@ == score_pairs(
                        final(self).session.players@,
                        final(self).session.round_totals(),
                    )
                })
                &&& (!final(self).session.board.no_tiles_left() ==> events@.len() == 1)
            },
            !old(self).session.board.is_valid_target(old(self).session.current_player, target)
                ==> {
                &&& final(self).session == old(self).session
                &&& events@.len() == 1
                &&& events@[0] == GameEvent::InvalidMove(
                    old(self).session.current_player,
                    target,
                    InvalidMoveError { target },
                )
            },
    {
        let player = self.session.current_player;
        let captured = self.session.board.get_piece(target.0, target.1);
        let mut events: Vec<GameEvent> = Vec::new();
        match self.session.process_move(target) {
            Ok(()) => {
                events.push(GameEvent::MoveMade(player, target, captured));
                if self.session.is_round_over() {
                    let winner = self.session.get_round_winner();
                    let pairs = self.round_score_pairs();
                    events.push(GameEvent::RoundEnded(winner, pairs));
                }
            }
            Err(e) => {
                events.push(GameEvent::InvalidMove(player, target, e));
            }
        }
        events
    }

    /// The current round's scores, paired with their players.
    fn round_score_pairs(&self) -> (pairs: Vec<(Player, i32)>)
        requires
            self.session.wf(),
        ensures
            pairs@ == score_pairs(self.session.players@, self.session.round_totals()),
    {
        let n = self.session.players.len();
        let mut pairs: Vec<(Player, i32)> = Vec::new();
        let mut i: usize = 0;
        while i < n
            invariant
                i <= n,
                n == self.session.players@.len(),
                n == self.session.scores@.len(),
                pairs@.len() == i,
                forall|j: int|
                    0 <= j < i ==> pairs@[j] == (
                    self.session.players@[j],
                    self.session.scores@[j].total,
                ),
            decreases n - i,
        {
            pairs.push((self.session.players[i], self.session.scores[i].total));
            i = i + 1;
        }
        proof {
            assert(pairs@ =~= score_pairs(self.session.players@, self.session.round_totals()));
        }
        pairs
    }

    /// Advances the session to the next round and announces it.
    pub fn start_next_round(&mut self) -> (events: Vec<GameEvent>)
        requires
            old(self).session.wf(),
            old(self).session.round < usize::MAX,
            forall|i: int|
                0 <= i < old(self).session.scores@.len() ==> i32::MIN <= old(
                    self,
                ).session.total_scores@[i] + (#[trigger] old(self).session.scores@[i]).total
                    <= i32::MAX,
        ensures
            GameSession::round_advanced(old(self).session, final(self).session),
            events@.len() == 1,
            events@[0] == GameEvent::RoundStarted(final(self).session.round),
    {
        self.session.start_next_round();
        let mut events: Vec<GameEvent> = Vec::new();
        events.push(GameEvent::RoundStarted(self.session.round));
        events
    }

    /// Reports the end of the game: the overall winner on cumulative
    /// totals and those totals. Reading them mutates nothing; ending the
    /// game is the caller's decision.
    pub fn end_game(&self) -> (events: Vec<GameEvent>)
        requires
            self.session.wf(),
        ensures
            events@.len() == 1,
            events@[0] is GameEnded,
            winner_ok(events@[0]->GameEnded_0, self.session.players@, self.session.total_scores@),
            events@[0]->GameEnded_1@ == score_pairs(
                self.session.players@,
                self.session.total_scores@,
            ),
    {
        let winner = self.session.get_overall_winner();
        let n = self.session.players.len();
        let mut pairs: Vec<(Player, i32)> = Vec::new();
        let mut i: usize = 0;
        while i < n
            invariant
                i <= n,
                n == self.session.players@.len(),
                n == self.session.total_scores@.len(),
                pairs@.len() == i,
                forall|j: int|
                    0 <= j < i ==> pairs@[j] == (
                    self.session.players@[j],
                    self.session.total_scores@[j],
                ),
            decreases n - i,
        {
            pairs.push((self.session.players[i], self.session.total_scores[i]));
            i = i + 1;
        }
        proof {
            assert(pairs@ =~= score_pairs(self.session.players@, self.session.total_scores@));
        }
        let mut events: Vec<GameEvent> = Vec::new();
        events.push(GameEvent::GameEnded(winner, pairs));
        events
    }
}

} // verus!
