use std::collections::HashMap;

use vstd::prelude::*;

use crate::board::{cell_of, grid_wf, Board};
use crate::coords::Coords;
use crate::error::GameError;
use crate::game_state::{
    ids_match, is_opening, reduce_result, reduce_spec, ClientEvent, GameEvent, GameModel, GameState,
};
use crate::game_utils::{get_possible_moves, is_white, legal_moves, Move};
use crate::player::{Player, PlayerId};
use crate::CELL_N;

verus! {

broadcast use vstd::std_specs::hash::group_hash_axioms;

/// A keyboard command, once decoded from the terminal.
#[derive(Debug, Clone, Copy, PartialEq, Eq, Structural)]
pub enum Command {
    Left,
    Down,
    Up,
    Right,
    Select,
    Other,
}

/// The cursor after `cmd`: one cell in the arrow's direction, staying on the board.
pub open spec fn cursor_after(c: Coords, cmd: Command) -> Coords {
    match cmd {
        Command::Left => if c.x != 0 { Coords { x: (c.x - 1) as usize, ..c } } else { c },
        Command::Down => if c.y < CELL_N - 1 { Coords { y: (c.y + 1) as usize, ..c } } else { c },
        Command::Up => if c.y > 0 { Coords { y: (c.y - 1) as usize, ..c } } else { c },
        Command::Right => if c.x != CELL_N - 1 { Coords { x: (c.x + 1) as usize, ..c } } else { c },
        _ => c,
    }
}

/// `found` is the first move of `moves` that ends on `c`, or `None` when none does.
pub open spec fn is_first_move_to(moves: Seq<Move>, c: Coords, found: Option<Move>) -> bool {
    match found {
        Some(m) => exists|i: int|
            #![trigger moves[i]]
            0 <= i < moves.len() && moves[i] == m && m.target() == c && forall|j: int|
                0 <= j < i ==> (#[trigger] moves[j]).target() != c,
        None => forall|j: int| 0 <= j < moves.len() ==> (#[trigger] moves[j]).target() != c,
    }
}

/// The first move of `moves` that ends on `c`.
pub fn first_move_to(moves: &Vec<Move>, c: Coords) -> (r: Option<Move>)
    ensures
        is_first_move_to(moves@, c, r),
{
    let mut k: usize = 0;
    while k < moves.len()
        invariant
            k <= moves@.len(),
            forall|j: int| 0 <= j < k ==> (#[trigger] moves@[j]).target() != c,
        decreases moves.len() - k,
    {
        if moves[k].to() == c {
            let mv = moves[k];
            assert(moves@[k as int] == mv);
            return Some(mv);
        }
        k += 1;
    }
    None
}

/// The request to send `found`, played by `player_id`, to the server.
pub open spec fn send_move(found: Option<Move>, player_id: PlayerId) -> Option<ClientEvent> {
    match found {
        Some(mv) => Some(ClientEvent::SendToServer(GameEvent::Move { mv, player_id })),
        None => None,
    }
}

/// The board as one player sees it: a local copy of the game, the cursor, the selected pawn
/// and the moves it may make.
#[derive(Debug)]
pub struct GameScene {
    game_state: GameState,
    possible_moves: Vec<Move>,
    cursor_cell: Coords,
    selected_cell: Option<Coords>,
    player_id: PlayerId,
}

impl GameScene {
    /// The local copy of the game.
    pub closed spec fn state(&self) -> GameModel {
        self.game_state@
    }

    /// The moves of the selected pawn.
    pub closed spec fn moves(&self) -> Seq<Move> {
        self.possible_moves@
    }

    /// The cell under the cursor.
    pub closed spec fn cursor(&self) -> Coords {
        self.cursor_cell
    }

    /// The selected pawn's cell, if any.
    pub closed spec fn selected(&self) -> Option<Coords> {
        self.selected_cell
    }

    /// The player at this terminal.
    pub closed spec fn me(&self) -> PlayerId {
        self.player_id
    }

    pub open spec fn wf(&self) -> bool {
        &&& grid_wf(self.state().grid)
        &&& ids_match(self.state().players)
        &&& self.cursor().in_bounds()
    }

    /// The scene keeps its game, moves, cursor and selection from `old`.
    pub open spec fn unchanged(&self, old: GameScene) -> bool {
        &&& self.state() == old.state()
        &&& self.moves() == old.moves()
        &&& self.cursor() == old.cursor()
        &&& self.selected() == old.selected()
        &&& self.me() == old.me()
    }

    proof fn lemma_state_wf(&self)
        requires
            self.wf(),
        ensures
            self.game_state.wf(),
    {
    }

    /// Opens the board for `player_id`, with `starting_player` to move; the cursor starts on
    /// the player's own side.
    pub fn new(players: HashMap<PlayerId, Player>, player_id: PlayerId, starting_player: PlayerId) -> (r: GameScene)
        requires
            players@.contains_key(player_id),
            players@.contains_key(starting_player),
            exists|k: PlayerId| #[trigger] players@.contains_key(k) && k != starting_player,
            ids_match(players@),
        ensures
            r.wf(),
            r.state().players == players@,
            r.state().is_turn == starting_player,
            r.state().history == Seq::<GameEvent>::empty(),
            !r.state().ended,
            exists|opponent: PlayerId|
                #![trigger players@.contains_key(opponent)]
                players@.contains_key(opponent) && opponent != starting_player && is_opening(
                    r.state().grid,
                    starting_player,
                    opponent,
                ),
            r.cursor() == (Coords { x: 0, y: if players@[player_id].direction == -1 { 0 } else { 7 } }),
            r.selected() is None,
            r.moves() == Seq::<Move>::empty(),
            r.me() == player_id,
    {
        let direction = match players.get(&player_id) {
            Some(player) => player.direction,
            None => 1,
        };
        GameScene {
            game_state: GameState::new(players, starting_player),
            cursor_cell: Coords { x: 0, y: if direction == -1 { 0 } else { 7 } },
            selected_cell: None,
            player_id,
            possible_moves: Vec::new(),
        }
    }

    /// Handles a command: arrows move the cursor; `Select`, on this player's turn, selects a
    /// pawn or asks to play a move. Nothing happens before both players are known.
    pub fn handle_input(&mut self, cmd: Command) -> (r: Option<ClientEvent>)
        requires
            old(self).wf(),
        ensures
            final(self).wf(),
            old(self).state().players.len() < 2 ==> r is None && final(self).unchanged(*old(self)),
            old(self).state().players.len() >= 2 && cmd == Command::Select && old(self).state().is_turn
                == old(self).me() ==> self_selects(*old(self), *final(self), r),
            old(self).state().players.len() >= 2 && !(cmd == Command::Select && old(self).state().is_turn
                == old(self).me()) ==> {
                &&& r is None
                &&& final(self).cursor() == cursor_after(old(self).cursor(), cmd)
                &&& final(self).state() == old(self).state()
                &&& final(self).moves() == old(self).moves()
                &&& final(self).selected() == old(self).selected()
                &&& final(self).me() == old(self).me()
            },
    {
        if self.game_state.player_map().len() < 2 {
            return None;
        }
        if cmd == Command::Select && self.game_state.turn() == self.player_id {
            self.select()
        } else {
            match cmd {
                Command::Left => self.left(),
                Command::Down => self.down(),
                Command::Up => self.up(),
                Command::Right => self.right(),
                _ => {},
            }
            None
        }
    }

    /// Applies an event that came from the server to the local copy of the game, dropping
    /// the selection. Returns the interface transition it calls for; an event that the
    /// game cannot apply gives none.
    pub fn handle_server_events(&mut self, game_event: GameEvent) -> (r: Option<ClientEvent>)
        requires
            old(self).wf(),
        ensures
            final(self).wf(),
            final(self).state() == reduce_spec(old(self).state(), game_event),
            final(self).moves() == Seq::<Move>::empty(),
            final(self).selected() is None,
            final(self).cursor() == old(self).cursor(),
            final(self).me() == old(self).me(),
            exists|res: Result<Option<ClientEvent>, GameError>|
                reduce_result(old(self).state(), game_event, res) && r == match res {
                    Ok(signal) => signal,
                    Err(_) => None,
                },
    {
        self.possible_moves.clear();
        self.selected_cell = None;
        let res = self.game_state.reduce(&game_event);
        match res {
            Ok(client_event) => client_event,
            Err(_) => None,
        }
    }

    fn left(&mut self)
        ensures
            final(self).cursor() == cursor_after(old(self).cursor(), Command::Left),
            final(self).state() == old(self).state(),
            final(self).moves() == old(self).moves(),
            final(self).selected() == old(self).selected(),
            final(self).me() == old(self).me(),
    {
        if self.cursor_cell.x != 0 {
            self.cursor_cell.x = self.cursor_cell.x - 1;
        }
    }

    fn down(&mut self)
        ensures
            final(self).cursor() == cursor_after(old(self).cursor(), Command::Down),
            final(self).state() == old(self).state(),
            final(self).moves() == old(self).moves(),
            final(self).selected() == old(self).selected(),
            final(self).me() == old(self).me(),
    {
        if self.cursor_cell.y < CELL_N - 1 {
            self.cursor_cell.y = self.cursor_cell.y + 1;
        }
    }

    fn up(&mut self)
        ensures
            final(self).cursor() == cursor_after(old(self).cursor(), Command::Up),
            final(self).state() == old(self).state(),
            final(self).moves() == old(self).moves(),
            final(self).selected() == old(self).selected(),
            final(self).me() == old(self).me(),
    {
        if self.cursor_cell.y > 0 {
            self.cursor_cell.y = self.cursor_cell.y - 1;
        }
    }

    fn right(&mut self)
        requires
            old(self).cursor().x < CELL_N,
        ensures
            final(self).cursor() == cursor_after(old(self).cursor(), Command::Right),
            final(self).state() == old(self).state(),
            final(self).moves() == old(self).moves(),
            final(self).selected() == old(self).selected(),
            final(self).me() == old(self).me(),
    {
        if self.cursor_cell.x != CELL_N - 1 {
            self.cursor_cell.x = self.cursor_cell.x + 1;
        }
    }

    /// Acts on the cell under the cursor: on an empty cell that one of the selected pawn's
    /// moves reaches, asks to play that move; on a pawn of this player, selects it and
    /// computes its moves.
    fn select(&mut self) -> (r: Option<ClientEvent>)
        requires
            old(self).wf(),
        ensures
            final(self).wf(),
            self_selects(*old(self), *final(self), r),
    {
        let cursor = self.cursor_cell;
        if !is_white(cursor) {
            return None;
        }
        proof {
            self.lemma_state_wf();
        }
        if self.game_state.board().get(cursor).is_none() {
            let found = first_move_to(&self.possible_moves, cursor);
            let r = match found {
                Some(mv) => Some(
                    ClientEvent::SendToServer(GameEvent::Move { mv, player_id: self.player_id }),
                ),
                None => None,
            };
            assert(is_first_move_to(self.moves(), cursor, found) && r == send_move(found, self.me()));
            return r;
        }
        match self.game_state.board().get(cursor) {
            Some(piece) => {
                if piece.player_id == self.player_id {
                    self.selected_cell = Some(cursor);
                    match self.game_state.player_map().get(&self.player_id) {
                        Some(player) => {
                            match get_possible_moves(self.game_state.board(), cursor, player) {
                                Ok(moves) => {
                                    self.possible_moves = moves;
                                },
                                Err(_) => {},
                            }
                        },
                        None => {},
                    }
                }
            },
            None => {},
        }
        None
    }
}

impl GameScene {
    /// The local copy of the game.
    pub fn game_state(&self) -> (r: &GameState)
        ensures
            r@ == self.state(),
    {
        &self.game_state
    }

    /// The moves of the selected pawn.
    pub fn possible_moves(&self) -> (r: &Vec<Move>)
        ensures
            r@ == self.moves(),
    {
        &self.possible_moves
    }

    /// The cell under the cursor.
    pub fn cursor_cell(&self) -> (r: Coords)
        ensures
            r == self.cursor(),
    {
        self.cursor_cell
    }

    /// The selected pawn's cell, if any.
    pub fn selected_cell(&self) -> (r: Option<Coords>)
        ensures
            r == self.selected(),
    {
        self.selected_cell
    }

    /// The player at this terminal.
    pub fn player_id(&self) -> (r: PlayerId)
        ensures
            r == self.me(),
    {
        self.player_id
    }
}

/// A request from the interface to the network side of the client.
#[derive(Debug, PartialEq)]
pub enum ClientToServerMessage {
    /// Send this event to the server.
    SendEvent(GameEvent),
    /// Close the connection.
    Disconnect,
}

/// The players announced while waiting in the menu for a game to start.
#[derive(Debug)]
pub struct Lobby {
    pub players: HashMap<PlayerId, Player>,
}

impl Lobby {
    pub fn new() -> (r: Lobby)
        ensures
            r.players@ == Map::<PlayerId, Player>::empty(),
    {
        Lobby { players: HashMap::new() }
    }

    /// Records each announced player; when the first turn is announced, the game opens with
    /// the players known so far.
    pub fn handle_server_events(&mut self, game_event: GameEvent) -> (r: Option<ClientEvent>)
        ensures
            game_event is PlayerJoined ==> r is None && final(self).players@ == old(self).players@.insert(
                game_event->player.id,
                game_event->player,
            ),
            game_event is TurnChanged ==> final(self).players@ == old(self).players@ && (r matches Some(
                ClientEvent::GoToGame(players, first),
            ) && players@ == old(self).players@ && first == game_event->TurnChanged_player_id),
            !(game_event is PlayerJoined || game_event is TurnChanged) ==> r is None
                && final(self).players@ == old(self).players@,
    {
        match game_event {
            GameEvent::PlayerJoined { player } => {
                self.players.insert(player.id, player);
                None
            },
            GameEvent::TurnChanged { player_id } => Some(
                ClientEvent::GoToGame(self.players.clone(), player_id),
            ),
            _ => None,
        }
    }
}

/// What selecting the cell under the cursor does to a scene `old`, giving `new` and `r`.
pub open spec fn self_selects(old: GameScene, new: GameScene, r: Option<ClientEvent>) -> bool {
    let c = old.cursor();
    let g = old.state().grid;
    let me = old.me();
    &&& new.state() == old.state()
    &&& new.cursor() == old.cursor()
    &&& new.me() == old.me()
    &&& if !c.is_dark() {
        r is None && new.unchanged(old)
    } else if cell_of(g, c) is None {
        new.unchanged(old) && exists|found: Option<Move>|
            is_first_move_to(old.moves(), c, found) && r == send_move(found, me)
    } else if cell_of(g, c)->0.player_id == me {
        &&& r is None
        &&& new.selected() == Some(c)
        &&& new.moves() == if old.state().players.contains_key(me) {
            legal_moves(g, c, me, old.state().players[me].direction)
        } else {
            old.moves()
        }
    } else {
        r is None && new.unchanged(old)
    }
}

} // verus!
