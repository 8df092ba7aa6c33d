use std::collections::HashMap;

use vstd::prelude::*;

use crate::board::{cell_of, grid_wf, initial_cell, set_cell, Board, Grid};
use crate::coords::Coords;
use crate::CELL_N;
use crate::error::GameError;
use crate::game_utils::{get_possible_moves, legal_moves, lemma_moves_on_board, Move};
use crate::piece::{Piece, PieceType};
use crate::player::{Player, PlayerId};

verus! {

broadcast use vstd::std_specs::hash::group_hash_axioms;

/// Why a game came to an end.
#[derive(Debug, Clone, Copy, PartialEq, Eq, Structural)]
pub enum EndGameReason {
    PlayerLeft { player_id: PlayerId },
    PlayerWon { winner: PlayerId },
}

/// The events exchanged between server and clients, and recorded in a game's history.
#[derive(Debug, PartialEq)]
pub enum GameEvent {
    PlayerJoined { player: Player },
    PlayerLeft { player_id: PlayerId },
    EndGame { reason: EndGameReason },
    TurnChanged { player_id: PlayerId },
    Move { mv: Move, player_id: PlayerId },
}

impl Clone for GameEvent {
    fn clone(&self) -> (r: GameEvent)
        ensures
            r == *self,
    {
        match self {
            GameEvent::PlayerJoined { player } => GameEvent::PlayerJoined { player: player.clone() },
            GameEvent::PlayerLeft { player_id } => GameEvent::PlayerLeft { player_id: *player_id },
            GameEvent::EndGame { reason } => GameEvent::EndGame { reason: *reason },
            GameEvent::TurnChanged { player_id } => GameEvent::TurnChanged { player_id: *player_id },
            GameEvent::Move { mv, player_id } => GameEvent::Move { mv: *mv, player_id: *player_id },
        }
    }
}

/// A transition that the client's interface should make.
#[derive(Debug, PartialEq)]
pub enum ClientEvent {
    /// Open the board with these players; the given player moves first.
    GoToGame(HashMap<PlayerId, Player>, PlayerId),
    /// Leave the board and show the menu, with the reason the game ended.
    GoToMenu(EndGameReason),
    /// Connect to a server with this user name and address.
    GoToLobby(String, String),
    /// Send this event to the server.
    SendToServer(GameEvent),
}

/// Mathematical model of a game state.
pub struct GameModel {
    pub grid: Grid,
    pub is_turn: PlayerId,
    pub players: Map<PlayerId, Player>,
    pub history: Seq<GameEvent>,
    pub ended: bool,
}

/// The state of one game: board, turn, players and the log of every event applied.
#[derive(Debug)]
pub struct GameState {
    pub grid: Board,
    pub is_turn: PlayerId,
    pub players: HashMap<PlayerId, Player>,
    history: Vec<GameEvent>,
    ended: bool,
}

impl View for GameState {
    type V = GameModel;

    closed spec fn view(&self) -> GameModel {
        GameModel {
            grid: self.grid@,
            is_turn: self.is_turn,
            players: self.players@,
            history: self.log(),
            ended: self.has_ended(),
        }
    }
}

/// Every player is filed under their own id.
pub open spec fn ids_match(players: Map<PlayerId, Player>) -> bool {
    forall|k: PlayerId| #[trigger] players.contains_key(k) ==> players[k].id == k
}

/// `g` is the opening position of `starting_turn` against `opponent`.
pub open spec fn is_opening(g: Grid, starting_turn: PlayerId, opponent: PlayerId) -> bool {
    &&& grid_wf(g)
    &&& forall|c: Coords| c.in_bounds() ==> #[trigger] cell_of(g, c) == initial_cell(c, starting_turn, opponent)
}

/// `player_id`'s score raised by one, when that player is registered and the score can grow.
pub open spec fn credit(players: Map<PlayerId, Player>, player_id: PlayerId) -> Map<PlayerId, Player> {
    if players.contains_key(player_id) && players[player_id].score < usize::MAX {
        let p = players[player_id];
        players.insert(player_id, Player { score: (p.score + 1) as usize, ..p })
    } else {
        players
    }
}

/// The board after `player_id` plays `mv`: a pawn of that player on the target, the source
/// emptied and, for a capture, the captured cell emptied.
pub open spec fn grid_after_move(g: Grid, mv: Move, player_id: PlayerId) -> Grid {
    let moved = set_cell(
        set_cell(g, mv.target(), Some(Piece { piece_type: PieceType::Pawn, player_id })),
        mv.source(),
        None,
    );
    match mv {
        Move::Simple { .. } => moved,
        Move::Capture { eat, .. } => set_cell(moved, eat, None),
    }
}

/// The state after `player_id` plays `mv`; a capture scores one point for the mover.
pub open spec fn apply_move(s: GameModel, mv: Move, player_id: PlayerId) -> GameModel {
    GameModel {
        grid: grid_after_move(s.grid, mv, player_id),
        players: if mv is Capture {
            credit(s.players, player_id)
        } else {
            s.players
        },
        ..s
    }
}

/// The state after reducing `e`: the event is appended to the history, then applied.
pub open spec fn reduce_spec(s: GameModel, e: GameEvent) -> GameModel {
    let s = GameModel { history: s.history.push(e), ..s };
    match e {
        GameEvent::Move { mv, player_id } => if mv.on_board() {
            apply_move(s, mv, player_id)
        } else {
            s
        },
        GameEvent::TurnChanged { player_id } => GameModel { is_turn: player_id, ..s },
        GameEvent::PlayerJoined { player } => GameModel {
            players: s.players.insert(player.id, player),
            ..s
        },
        GameEvent::PlayerLeft { player_id } => GameModel {
            players: s.players.remove(player_id),
            ..s
        },
        GameEvent::EndGame { .. } => GameModel { ended: true, ..s },
    }
}

/// What reducing `e` on `s` returns: the menu transition for a departure or the end of the
/// game, the win going to a remaining player; an error for a move off the board or the
/// departure of an unknown player.
pub open spec fn reduce_result(s: GameModel, e: GameEvent, r: Result<Option<ClientEvent>, GameError>) -> bool {
    match e {
        GameEvent::Move { mv, .. } => if mv.on_board() {
            r is Ok && r->Ok_0 is None
        } else {
            r is Err && r->Err_0 == GameError::OutOfBounds
        },
        GameEvent::TurnChanged { .. } => r is Ok && r->Ok_0 is None,
        GameEvent::PlayerJoined { .. } => r is Ok && r->Ok_0 is None,
        GameEvent::PlayerLeft { player_id } => if !s.players.contains_key(player_id) {
            r is Err && r->Err_0 == GameError::UnknownPlayer(player_id)
        } else {
            left_signal(s.players.remove(player_id), player_id, r)
        },
        GameEvent::EndGame { reason } => r matches Ok(Some(ClientEvent::GoToMenu(why))) && why
            == reason,
    }
}

/// The menu transition after `player_id` left and `rest` remain: a win for a remaining
/// player, or the departure itself when nobody remains.
pub open spec fn left_signal(
    rest: Map<PlayerId, Player>,
    player_id: PlayerId,
    r: Result<Option<ClientEvent>, GameError>,
) -> bool {
    if !(exists|k: PlayerId| rest.contains_key(k)) {
        r matches Ok(Some(ClientEvent::GoToMenu(why))) && why == EndGameReason::PlayerLeft {
            player_id,
        }
    } else {
        r matches Ok(Some(ClientEvent::GoToMenu(EndGameReason::PlayerWon { winner })))
            && rest.contains_key(winner)
    }
}

/// `player_id` may play `mv`: it starts from a cell on the board holding a piece of theirs,
/// and is one of the legal moves of that piece.
pub open spec fn move_is_legal(s: GameModel, mv: Move, player_id: PlayerId) -> bool {
    &&& mv.source().in_bounds()
    &&& cell_of(s.grid, mv.source()) matches Some(p) && p.player_id == player_id
    &&& legal_moves(s.grid, mv.source(), player_id, s.players[player_id].direction).contains(mv)
}

/// Whether `e` may be applied to `s`, and why not.
pub open spec fn validate_spec(s: GameModel, e: GameEvent) -> Result<(), GameError> {
    match e {
        GameEvent::PlayerJoined { player } => if s.players.contains_key(player.id) {
            Err(GameError::DuplicatePlayer(player.id))
        } else if s.players.len() >= 2 {
            Err(GameError::GameFull)
        } else {
            Ok(())
        },
        GameEvent::Move { mv, player_id } => if player_id != s.is_turn {
            Err(GameError::NotYourTurn(player_id))
        } else if s.ended {
            Err(GameError::GameOver)
        } else if !s.players.contains_key(player_id) {
            Err(GameError::UnknownPlayer(player_id))
        } else if !move_is_legal(s, mv, player_id) {
            Err(GameError::IllegalMove)
        } else {
            Ok(())
        },
        GameEvent::PlayerLeft { player_id } => if !s.players.contains_key(player_id) {
            Err(GameError::UnknownPlayer(player_id))
        } else {
            Ok(())
        },
        GameEvent::TurnChanged { player_id } => if player_id == s.is_turn {
            Err(GameError::AlreadyPlaying(player_id))
        } else if s.ended {
            Err(GameError::GameOver)
        } else {
            Ok(())
        },
        GameEvent::EndGame { .. } => Ok(()),
    }
}

/// The state after dispatching `e`: reduced when valid, unchanged otherwise.
pub open spec fn dispatch_spec(s: GameModel, e: GameEvent) -> GameModel {
    if validate_spec(s, e) is Ok {
        reduce_spec(s, e)
    } else {
        s
    }
}

impl GameState {
    /// The events applied so far, oldest first.
    pub closed spec fn log(&self) -> Seq<GameEvent> {
        self.history@
    }

    /// An `EndGame` event has been applied.
    pub closed spec fn has_ended(&self) -> bool {
        self.ended
    }

    /// The board has its shape and every player is filed under their own id.
    pub open spec fn wf(&self) -> bool {
        &&& grid_wf(self@.grid)
        &&& ids_match(self@.players)
    }

    /// The board.
    pub fn board(&self) -> (r: &Board)
        ensures
            r@ == self@.grid,
    {
        &self.grid
    }

    /// The player whose turn it is.
    pub fn turn(&self) -> (r: PlayerId)
        ensures
            r == self@.is_turn,
    {
        self.is_turn
    }

    /// The registered players, by id.
    pub fn player_map(&self) -> (r: &HashMap<PlayerId, Player>)
        ensures
            r@ == self@.players,
    {
        &self.players
    }

    /// The events applied so far, oldest first.
    pub fn history(&self) -> (r: &Vec<GameEvent>)
        ensures
            r@ == self@.history,
    {
        &self.history
    }

    /// Whether an `EndGame` event has been applied.
    pub fn is_ended(&self) -> (r: bool)
        ensures
            r == self@.ended,
    {
        self.ended
    }
}

/// Some registered player other than `id`, if there is one.
pub fn other_player(players: &HashMap<PlayerId, Player>, id: PlayerId) -> (r: Option<PlayerId>)
    ensures
        r matches Some(k) ==> players@.contains_key(k) && k != id,
        r is None ==> forall|k: PlayerId| #[trigger] players@.contains_key(k) ==> k == id,
{
    for k in it: players.keys()
        invariant
            forall|j: int| 0 <= j < it.index() ==> *it.seq()[j] == id,
    {
        if *k != id {
            return Some(*k);
        }
    }
    None
}

/// The player registered when `id` connects under `name`: the first to connect advances
/// towards row 0 (direction `1`), the second towards the last row (direction `-1`).
pub open spec fn joining_player(s: GameModel, id: PlayerId, name: String) -> Player {
    Player { id, name, direction: if s.players.len() == 0 { 1i32 } else { -1i32 }, score: 0 }
}

impl GameState {
    /// A game with its two or more players, in the opening position, `starting_turn` to move.
    pub fn new(players: HashMap<PlayerId, Player>, starting_turn: PlayerId) -> (r: GameState)
        requires
            players@.contains_key(starting_turn),
            exists|k: PlayerId| #[trigger] players@.contains_key(k) && k != starting_turn,
            ids_match(players@),
        ensures
            r.wf(),
            r@.players == players@,
            r@.is_turn == starting_turn,
            r@.history == Seq::<GameEvent>::empty(),
            !r@.ended,
            exists|opponent: PlayerId|
                #![trigger players@.contains_key(opponent)]
                players@.contains_key(opponent) && opponent != starting_turn && is_opening(
                    r@.grid,
                    starting_turn,
                    opponent,
                ),
    {
        let opponent = match other_player(&players, starting_turn) {
            Some(k) => k,
            None => {
                // unreachable: another player is registered
                proof {
                    let k = choose|k: PlayerId| #[trigger] players@.contains_key(k) && k != starting_turn;
                    assert(false);
                }
                starting_turn
            },
        };
        let r = GameState {
            grid: Board::new(starting_turn, opponent),
            is_turn: starting_turn,
            players,
            history: Vec::new(),
            ended: false,
        };
        assert(players@.contains_key(opponent));
        r
    }

    /// A game that no player has joined yet, on an empty board.
    pub fn empty() -> (r: GameState)
        ensures
            r.wf(),
            r@.players == Map::<PlayerId, Player>::empty(),
            r@.is_turn == 0,
            r@.history == Seq::<GameEvent>::empty(),
            !r@.ended,
            forall|c: Coords| c.in_bounds() ==> #[trigger] cell_of(r@.grid, c) is None,
    {
        GameState {
            grid: Board::empty(),
            is_turn: 0,
            players: HashMap::new(),
            history: Vec::new(),
            ended: false,
        }
    }

    /// The player who moves after the current one: some registered player other than
    /// `is_turn`, or `None` when there is none. Nothing is changed.
    pub fn next_turn(&self) -> (r: Option<PlayerId>)
        ensures
            r matches Some(k) ==> self@.players.contains_key(k) && k != self@.is_turn,
            r is None ==> forall|k: PlayerId| #[trigger] self@.players.contains_key(k) ==> k == self@.is_turn,
    {
        other_player(&self.players, self.is_turn)
    }

    /// Validates `event` and, only when it is valid, reduces it. A refused event changes
    /// nothing.
    pub fn dispatch(&mut self, event: &GameEvent) -> (r: Result<Option<ClientEvent>, GameError>)
        requires
            old(self).wf(),
        ensures
            final(self).wf(),
            final(self)@ == dispatch_spec(old(self)@, *event),
            validate_spec(old(self)@, *event) matches Err(e) ==> r == Err::<Option<ClientEvent>, GameError>(e),
            validate_spec(old(self)@, *event) is Ok ==> r is Ok && reduce_result(old(self)@, *event, r),
    {
        match self.validate(event) {
            Err(e) => Err(e),
            Ok(()) => {
                proof {
                    if let GameEvent::Move { mv, player_id } = *event {
                        lemma_moves_on_board(
                            self@.grid,
                            mv.source(),
                            player_id,
                            self@.players[player_id].direction,
                        );
                    }
                }
                self.reduce(event)
            },
        }
    }

    /// Appends `event` to the history and applies it, without validating it.
    pub fn reduce(&mut self, event: &GameEvent) -> (r: Result<Option<ClientEvent>, GameError>)
        requires
            old(self).wf(),
        ensures
            final(self).wf(),
            final(self)@ == reduce_spec(old(self)@, *event),
            reduce_result(old(self)@, *event, r),
    {
        self.history.push(event.clone());
        match event {
            GameEvent::Move { mv, player_id } => {
                if mv.from().x < CELL_N && mv.from().y < CELL_N && mv.to().x < CELL_N && mv.to().y
                    < CELL_N && match mv {
                    Move::Simple { .. } => true,
                    Move::Capture { eat, .. } => eat.x < CELL_N && eat.y < CELL_N,
                } {
                    self.move_pawn(mv, *player_id);
                    Ok(None)
                } else {
                    Err(GameError::OutOfBounds)
                }
            },
            GameEvent::TurnChanged { player_id } => {
                self.is_turn = *player_id;
                Ok(None)
            },
            GameEvent::PlayerJoined { player } => {
                self.players.insert(player.id, player.clone());
                Ok(None)
            },
            GameEvent::PlayerLeft { player_id } => {
                match self.players.remove(player_id) {
                    None => Err(GameError::UnknownPlayer(*player_id)),
                    Some(_) => match other_player(&self.players, *player_id) {
                        Some(winner) => Ok(
                            Some(ClientEvent::GoToMenu(EndGameReason::PlayerWon { winner })),
                        ),
                        None => Ok(
                            Some(
                                ClientEvent::GoToMenu(
                                    EndGameReason::PlayerLeft { player_id: *player_id },
                                ),
                            ),
                        ),
                    },
                }
            },
            GameEvent::EndGame { reason } => {
                self.ended = true;
                Ok(Some(ClientEvent::GoToMenu(*reason)))
            },
        }
    }

    /// Whether `event` may be applied now; a move must be one of the legal moves of a piece
    /// of the mover.
    pub fn validate(&self, event: &GameEvent) -> (r: Result<(), GameError>)
        requires
            self.wf(),
        ensures
            r == validate_spec(self@, *event),
    {
        match event {
            GameEvent::PlayerJoined { player } => {
                if self.players.contains_key(&player.id) {
                    return Err(GameError::DuplicatePlayer(player.id));
                }
                if self.players.len() >= 2 {
                    return Err(GameError::GameFull);
                }
            },
            GameEvent::Move { mv, player_id } => {
                if self.is_turn != *player_id {
                    return Err(GameError::NotYourTurn(*player_id));
                }
                if self.ended {
                    return Err(GameError::GameOver);
                }
                let player = match self.players.get(player_id) {
                    Some(p) => p,
                    None => return Err(GameError::UnknownPlayer(*player_id)),
                };
                let from = mv.from();
                if from.x >= CELL_N || from.y >= CELL_N {
                    return Err(GameError::IllegalMove);
                }
                match self.grid.get(from) {
                    Some(piece) => {
                        if piece.player_id != *player_id {
                            return Err(GameError::IllegalMove);
                        }
                    },
                    None => return Err(GameError::IllegalMove),
                }
                let moves = match get_possible_moves(&self.grid, from, player) {
                    Ok(moves) => moves,
                    Err(e) => return Err(e),
                };
                assert(self@.players[*player_id] == *player);
                let mut k: usize = 0;
                while k < moves.len()
                    invariant
                        k <= moves.len(),
                        forall|j: int| 0 <= j < k ==> moves@[j] != *mv,
                        self@.players.contains_key(*player_id),
                        self@.players[*player_id] == *player,
                        player.id == *player_id,
                        *event == (GameEvent::Move { mv: *mv, player_id: *player_id }),
                        self@.is_turn == *player_id,
                        !self@.ended,
                        from == mv.source(),
                        from.in_bounds(),
                        cell_of(self@.grid, from) matches Some(p) && p.player_id == *player_id,
                        moves@ == legal_moves(self@.grid, from, *player_id, player.direction),
                    decreases moves.len() - k,
                {
                    if moves[k] == *mv {
                        assert(moves@[k as int] == *mv);
                        assert(moves@.contains(*mv));
                        return Ok(());
                    }
                    k += 1;
                }
                return Err(GameError::IllegalMove);
            },
            GameEvent::PlayerLeft { player_id } => {
                if !self.players.contains_key(player_id) {
                    return Err(GameError::UnknownPlayer(*player_id));
                }
            },
            GameEvent::TurnChanged { player_id } => {
                if self.is_turn == *player_id {
                    return Err(GameError::AlreadyPlaying(*player_id));
                }
                if self.ended {
                    return Err(GameError::GameOver);
                }
            },
            GameEvent::EndGame { .. } => {},
        }
        Ok(())
    }

    /// Plays `mv` for `player_id`: a pawn of theirs lands on the target, the source and any
    /// captured cell are emptied, and a capture scores one point for the mover.
    fn move_pawn(&mut self, mv: &Move, player_id: PlayerId)
        requires
            old(self).wf(),
            mv.on_board(),
        ensures
            final(self).wf(),
            final(self)@ == apply_move(old(self)@, *mv, player_id),
    {
        self.grid.set(mv.to(), Some(Piece { piece_type: PieceType::Pawn, player_id }));
        self.grid.set(mv.from(), None);
        match mv {
            Move::Simple { .. } => {},
            Move::Capture { eat, .. } => {
                self.grid.set(*eat, None);
                if let Some(mut player) = self.players.remove(&player_id) {
                    if player.score < usize::MAX {
                        player.score = player.score + 1;
                    }
                    self.players.insert(player_id, player);
                }
            },
        }
        assert(self@.players =~= apply_move(old(self)@, *mv, player_id).players);
    }
}

impl GameState {
    /// Registers the player connecting as `id` under `name`, the way the server sequences a
    /// game: the join is dispatched, and once two players are known the board is set up with
    /// the first one to connect on rows 5 to 7, and the turn is given to them. Returns that
    /// player's id when the game starts, for the server to announce.
    pub fn connect_player(&mut self, id: PlayerId, name: String) -> (r: Result<Option<PlayerId>, GameError>)
        requires
            old(self).wf(),
        ensures
            final(self).wf(),
            ({
                let joined = GameEvent::PlayerJoined { player: joining_player(old(self)@, id, name) };
                &&& validate_spec(old(self)@, joined) matches Err(e) ==> r == Err::<Option<PlayerId>, GameError>(e)
                    && final(self)@ == old(self)@
                &&& validate_spec(old(self)@, joined) is Ok && old(self)@.players.len() == 0 ==> r
                    == Ok::<Option<PlayerId>, GameError>(None) && final(self)@ == reduce_spec(old(self)@, joined)
                &&& validate_spec(old(self)@, joined) is Ok && old(self)@.players.len() == 1 ==> {
                    &&& r matches Ok(Some(first))
                    &&& old(self)@.players.contains_key(first)
                    &&& first != id
                    &&& is_opening(final(self)@.grid, first, id)
                    &&& final(self)@.is_turn == first
                    &&& final(self)@.players == old(self)@.players.insert(id, joining_player(old(self)@, id, name))
                    &&& final(self)@.history == old(self)@.history.push(joined).push(
                        GameEvent::TurnChanged { player_id: first },
                    )
                    &&& final(self)@.ended == old(self)@.ended
                }
            }),
    {
        let ghost start = self@;
        let direction: i32 = if self.players.len() == 0 {
            1
        } else {
            -1
        };
        let first = other_player(&self.players, id);
        let joined = GameEvent::PlayerJoined { player: Player { id, name, direction, score: 0 } };
        match self.dispatch(&joined) {
            Err(e) => return Err(e),
            Ok(_) => {},
        }
        proof {
            let joined_player = joining_player(start, id, name);
            if validate_spec(start, joined) is Ok {
                assert(self@.players == start.players.insert(id, joined_player));
                assert(!start.players.dom().contains(id));
                assert(self@.players.dom() == start.players.dom().insert(id));
                assert(self@.players.len() == start.players.len() + 1);
                if start.players.len() == 1 {
                    let k = start.players.dom().choose();
                    assert(start.players.dom().contains(k));
                    assert(first is Some);
                }
            }
        }
        if self.players.len() == 2 {
            match first {
                Some(first) => {
                    self.grid = Board::new(first, id);
                    let _ = self.reduce(&GameEvent::TurnChanged { player_id: first });
                    Ok(Some(first))
                },
                None => Ok(None),
            }
        } else {
            Ok(None)
        }
    }
}

} // verus!

verus! {

/// The state reached from `s` by reducing `events` in order, without validation.
pub open spec fn replay(s: GameModel, events: Seq<GameEvent>) -> GameModel
    decreases events.len(),
{
    if events.len() == 0 {
        s
    } else {
        reduce_spec(replay(s, events.drop_last()), events.last())
    }
}

/// The state reached from `s` by dispatching `events` in order: each is validated, and
/// reduced only when valid.
pub open spec fn dispatch_all(s: GameModel, events: Seq<GameEvent>) -> GameModel
    decreases events.len(),
{
    if events.len() == 0 {
        s
    } else {
        dispatch_spec(dispatch_all(s, events.drop_last()), events.last())
    }
}

/// Replaying the recorded history through `reduce` alone, from the state the game started
/// in with an empty history, gives back exactly the state that dispatching the events one
/// by one produced.
pub proof fn lemma_replay_history(s0: GameModel, events: Seq<GameEvent>)
    requires
        s0.history == Seq::<GameEvent>::empty(),
    ensures
        replay(s0, dispatch_all(s0, events).history) == dispatch_all(s0, events),
    decreases events.len(),
{
    if events.len() > 0 {
        let prev = dispatch_all(s0, events.drop_last());
        lemma_replay_history(s0, events.drop_last());
        let e = events.last();
        if validate_spec(prev, e) is Ok {
            let next = reduce_spec(prev, e);
            assert(next.history == prev.history.push(e));
            assert(next.history.drop_last() == prev.history);
        }
    }
}

/// A move announced by a player whose turn it is not is refused with `NotYourTurn`, and
/// dispatching it leaves the state as it was.
pub proof fn lemma_out_of_turn_move_refused(s: GameModel, mv: Move, player_id: PlayerId)
    requires
        player_id != s.is_turn,
    ensures
        validate_spec(s, GameEvent::Move { mv, player_id }) == Err::<(), GameError>(
            GameError::NotYourTurn(player_id),
        ),
        dispatch_spec(s, GameEvent::Move { mv, player_id }) == s,
{
}

} // verus!
