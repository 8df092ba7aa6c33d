use std::collections::HashMap;

use checkers::board::Board;
use checkers::coords::Coords;
use checkers::error::GameError;
use checkers::game_state::{ClientEvent, EndGameReason, GameEvent, GameState};
use checkers::game_utils::{is_white, Move};
use checkers::piece::{Piece, PieceType};
use checkers::player::Player;
use checkers::CELL_N;

fn c(x: usize, y: usize) -> Coords {
    Coords { x, y }
}

fn pawn(player_id: u64) -> Option<Piece> {
    Some(Piece::new(PieceType::Pawn, player_id))
}

fn player(id: u64, direction: i32) -> Player {
    Player { id, name: format!("p{id}"), direction, score: 0 }
}

fn two_players() -> HashMap<u64, Player> {
    let mut m = HashMap::new();
    m.insert(1, player(1, 1));
    m.insert(2, player(2, -1));
    m
}

/// Player 1 (moving up) at (2,3), an opposing pawn at (3,4), everything else empty.
fn capture_setup() -> GameState {
    let mut s = GameState::new(two_players(), 1);
    s.grid = Board::empty();
    s.grid.set(c(2, 3), pawn(1));
    s.grid.set(c(3, 4), pawn(2));
    s
}

fn count(board: &Board, id: u64) -> usize {
    let mut n = 0;
    for y in 0..CELL_N {
        for x in 0..CELL_N {
            if let Some(p) = board.get(c(x, y)) {
                if p.player_id == id {
                    assert!(is_white(c(x, y)));
                    n += 1;
                }
            }
        }
    }
    n
}

#[test]
fn two_joins_start_the_game() {
    let mut s = GameState::empty();
    assert_eq!(s.connect_player(10, "alice".to_string()), Ok(None));
    assert_eq!(s.players.get(&10).unwrap().direction, 1);
    assert_eq!(count(&s.grid, 10), 0);
    assert_eq!(s.connect_player(20, "bob".to_string()), Ok(Some(10)));
    assert_eq!(s.players.get(&20).unwrap().direction, -1);
    assert_eq!(s.is_turn, 10);
    assert_eq!(count(&s.grid, 10), 12);
    assert_eq!(count(&s.grid, 20), 12);
    for x in 0..CELL_N {
        for y in 0..3 {
            if is_white(c(x, y)) {
                assert_eq!(s.grid.get(c(x, y)), pawn(20));
            }
        }
        for y in 5..8 {
            if is_white(c(x, y)) {
                assert_eq!(s.grid.get(c(x, y)), pawn(10));
            }
        }
    }
    assert_eq!(s.history().len(), 3);
    assert_eq!(s.history()[2], GameEvent::TurnChanged { player_id: 10 });
}

#[test]
fn third_connection_is_refused() {
    let mut s = GameState::empty();
    s.connect_player(1, "a".to_string()).unwrap();
    s.connect_player(2, "b".to_string()).unwrap();
    assert_eq!(s.connect_player(3, "c".to_string()), Err(GameError::GameFull));
    assert_eq!(s.players.len(), 2);
    assert_eq!(s.connect_player(2, "b".to_string()), Err(GameError::DuplicatePlayer(2)));
}

#[test]
fn capture_scores_and_clears() {
    let mut s = capture_setup();
    let mv = Move::Capture { from: c(2, 3), to: c(4, 5), eat: c(3, 4) };
    assert_eq!(s.dispatch(&GameEvent::Move { mv, player_id: 1 }), Ok(None));
    assert_eq!(s.players.get(&1).unwrap().score, 1);
    assert_eq!(s.players.get(&2).unwrap().score, 0);
    assert_eq!(s.grid.get(c(2, 3)), None);
    assert_eq!(s.grid.get(c(3, 4)), None);
    assert_eq!(s.grid.get(c(4, 5)), pawn(1));
}

#[test]
fn out_of_turn_move_changes_nothing() {
    let mut s = GameState::new(two_players(), 1);
    let grid_before = format!("{:?}", s.grid);
    let players_before = s.players.clone();
    let mv = Move::Simple { from: c(0, 2), to: c(1, 3) };
    assert_eq!(s.dispatch(&GameEvent::Move { mv, player_id: 2 }), Err(GameError::NotYourTurn(2)));
    assert_eq!(format!("{:?}", s.grid), grid_before);
    assert_eq!(s.players, players_before);
    assert_eq!(s.is_turn, 1);
    assert!(s.history().is_empty());
}

#[test]
fn illegal_moves_are_refused() {
    let mut s = capture_setup();
    // a step while a capture is available
    let step = Move::Simple { from: c(2, 3), to: c(1, 2) };
    assert_eq!(s.dispatch(&GameEvent::Move { mv: step, player_id: 1 }), Err(GameError::IllegalMove));
    // moving the opponent's pawn
    let theirs = Move::Simple { from: c(3, 4), to: c(2, 5) };
    assert_eq!(s.dispatch(&GameEvent::Move { mv: theirs, player_id: 1 }), Err(GameError::IllegalMove));
    // from off the board
    let off = Move::Simple { from: c(9, 3), to: c(8, 2) };
    assert_eq!(s.dispatch(&GameEvent::Move { mv: off, player_id: 1 }), Err(GameError::IllegalMove));
    assert_eq!(s.grid.get(c(2, 3)), pawn(1));
    assert!(s.history().is_empty());
}

#[test]
fn unknown_mover_is_refused() {
    let mut s = GameState::new(two_players(), 1);
    s.players.remove(&1);
    let mv = Move::Simple { from: c(1, 5), to: c(0, 4) };
    assert_eq!(s.dispatch(&GameEvent::Move { mv, player_id: 1 }), Err(GameError::UnknownPlayer(1)));
}

#[test]
fn player_left_gives_win_to_other() {
    let mut s = GameState::new(two_players(), 1);
    let r = s.dispatch(&GameEvent::PlayerLeft { player_id: 2 });
    assert_eq!(r, Ok(Some(ClientEvent::GoToMenu(EndGameReason::PlayerWon { winner: 1 }))));
    assert!(!s.players.contains_key(&2));
    assert!(s.players.contains_key(&1));
    let r = s.dispatch(&GameEvent::PlayerLeft { player_id: 1 });
    assert_eq!(r, Ok(Some(ClientEvent::GoToMenu(EndGameReason::PlayerLeft { player_id: 1 }))));
    assert_eq!(s.dispatch(&GameEvent::PlayerLeft { player_id: 1 }), Err(GameError::UnknownPlayer(1)));
}

#[test]
fn turn_change_rules() {
    let mut s = GameState::new(two_players(), 1);
    assert_eq!(s.dispatch(&GameEvent::TurnChanged { player_id: 1 }), Err(GameError::AlreadyPlaying(1)));
    assert_eq!(s.dispatch(&GameEvent::TurnChanged { player_id: 2 }), Ok(None));
    assert_eq!(s.is_turn, 2);
    assert_eq!(s.next_turn(), Some(1));
    assert_eq!(s.is_turn, 2);
}

#[test]
fn end_game_blocks_moves_and_turns() {
    let mut s = GameState::new(two_players(), 1);
    let reason = EndGameReason::PlayerWon { winner: 2 };
    assert_eq!(
        s.dispatch(&GameEvent::EndGame { reason }),
        Ok(Some(ClientEvent::GoToMenu(reason)))
    );
    assert!(s.is_ended());
    assert_eq!(s.dispatch(&GameEvent::TurnChanged { player_id: 2 }), Err(GameError::GameOver));
    let mv = Move::Simple { from: c(1, 5), to: c(0, 4) };
    assert_eq!(s.dispatch(&GameEvent::Move { mv, player_id: 1 }), Err(GameError::GameOver));
}

#[test]
fn reduce_off_board_move_reports_error() {
    let mut s = GameState::new(two_players(), 1);
    let mv = Move::Simple { from: c(1, 5), to: c(0, 8) };
    assert_eq!(s.reduce(&GameEvent::Move { mv, player_id: 1 }), Err(GameError::OutOfBounds));
    assert_eq!(s.history().len(), 1);
    assert_eq!(s.grid.get(c(1, 5)), pawn(1));
}

#[test]
fn next_turn_is_a_pure_lookup() {
    let s = GameState::new(two_players(), 2);
    assert_eq!(s.next_turn(), Some(1));
    assert_eq!(s.is_turn, 2);
    let lone = GameState::empty();
    assert_eq!(lone.next_turn(), None);
}

#[test]
fn replaying_history_reproduces_state() {
    let mut s = GameState::new(two_players(), 1);
    let events = vec![
        GameEvent::Move { mv: Move::Simple { from: c(1, 5), to: c(2, 4) }, player_id: 1 },
        GameEvent::Move { mv: Move::Simple { from: c(4, 2), to: c(3, 3) }, player_id: 2 },
        GameEvent::TurnChanged { player_id: 2 },
        GameEvent::Move { mv: Move::Simple { from: c(4, 2), to: c(3, 3) }, player_id: 2 },
        GameEvent::TurnChanged { player_id: 1 },
        GameEvent::Move { mv: Move::Capture { from: c(2, 4), to: c(4, 2), eat: c(3, 3) }, player_id: 1 },
        GameEvent::TurnChanged { player_id: 1 },
    ];
    for e in events.iter() {
        let _ = s.dispatch(e);
    }
    assert_eq!(s.history().len(), 5);
    assert_eq!(s.players.get(&1).unwrap().score, 1);
    let mut replayed = GameState::new(two_players(), 1);
    for e in s.history().clone().iter() {
        let _ = replayed.reduce(e);
    }
    assert_eq!(format!("{:?}", replayed.grid), format!("{:?}", s.grid));
    assert_eq!(replayed.players, s.players);
    assert_eq!(replayed.is_turn, s.is_turn);
    assert_eq!(replayed.history(), s.history());
    assert_eq!(replayed.is_ended(), s.is_ended());
}
