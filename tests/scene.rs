use std::collections::HashMap;

use checkers::coords::Coords;
use checkers::game::{first_move_to, Command, GameScene, Lobby};
use checkers::game_state::{ClientEvent, EndGameReason, GameEvent};
use checkers::game_utils::Move;
use checkers::piece::{Piece, PieceType};
use checkers::player::Player;

fn c(x: usize, y: usize) -> Coords {
    Coords { x, y }
}

fn player(id: u64, direction: i32) -> Player {
    Player { id, name: format!("p{id}"), direction, score: 0 }
}

fn two_players() -> HashMap<u64, Player> {
    let mut m = HashMap::new();
    m.insert(1, player(1, 1));
    m.insert(2, player(2, -1));
    m
}

#[test]
fn cursor_starts_on_own_side() {
    let mine = GameScene::new(two_players(), 1, 1);
    assert_eq!(mine.cursor_cell(), c(0, 7));
    let theirs = GameScene::new(two_players(), 2, 1);
    assert_eq!(theirs.cursor_cell(), c(0, 0));
    assert_eq!(theirs.player_id(), 2);
    assert_eq!(theirs.selected_cell(), None);
    assert!(theirs.possible_moves().is_empty());
}

#[test]
fn arrows_move_cursor_within_board() {
    let mut s = GameScene::new(two_players(), 1, 1);
    assert_eq!(s.handle_input(Command::Left), None);
    assert_eq!(s.cursor_cell(), c(0, 7));
    s.handle_input(Command::Down);
    assert_eq!(s.cursor_cell(), c(0, 7));
    s.handle_input(Command::Up);
    assert_eq!(s.cursor_cell(), c(0, 6));
    s.handle_input(Command::Right);
    assert_eq!(s.cursor_cell(), c(1, 6));
    s.handle_input(Command::Down);
    assert_eq!(s.cursor_cell(), c(1, 7));
    s.handle_input(Command::Other);
    assert_eq!(s.cursor_cell(), c(1, 7));
    for _ in 0..10 {
        s.handle_input(Command::Right);
    }
    assert_eq!(s.cursor_cell(), c(7, 7));
}

#[test]
fn select_pawn_then_target_sends_move() {
    let mut s = GameScene::new(two_players(), 1, 1);
    s.handle_input(Command::Up);
    s.handle_input(Command::Up);
    s.handle_input(Command::Right);
    assert_eq!(s.cursor_cell(), c(1, 5));
    assert_eq!(s.handle_input(Command::Select), None);
    assert_eq!(s.selected_cell(), Some(c(1, 5)));
    assert_eq!(
        s.possible_moves().clone(),
        vec![Move::Simple { from: c(1, 5), to: c(0, 4) }, Move::Simple { from: c(1, 5), to: c(2, 4) }]
    );
    s.handle_input(Command::Up);
    s.handle_input(Command::Right);
    let sent = s.handle_input(Command::Select);
    assert_eq!(
        sent,
        Some(ClientEvent::SendToServer(GameEvent::Move {
            mv: Move::Simple { from: c(1, 5), to: c(2, 4) },
            player_id: 1
        }))
    );
}

#[test]
fn select_on_light_or_foreign_cell_does_nothing() {
    let mut s = GameScene::new(two_players(), 1, 1);
    // (0,7) is light
    assert_eq!(s.handle_input(Command::Select), None);
    assert_eq!(s.selected_cell(), None);
    // an empty dark cell that no move reaches
    for _ in 0..3 {
        s.handle_input(Command::Up);
    }
    assert_eq!(s.cursor_cell(), c(0, 4));
    assert_eq!(s.handle_input(Command::Select), None);
    assert_eq!(s.selected_cell(), None);
    // a pawn of the opponent
    for _ in 0..4 {
        s.handle_input(Command::Up);
    }
    assert_eq!(s.cursor_cell(), c(0, 0));
    assert_eq!(s.handle_input(Command::Select), None);
    assert_eq!(s.selected_cell(), None);
}

#[test]
fn select_out_of_turn_is_ignored() {
    let mut s = GameScene::new(two_players(), 2, 1);
    s.handle_input(Command::Right);
    s.handle_input(Command::Down);
    assert_eq!(s.cursor_cell(), c(1, 1));
    assert_eq!(s.handle_input(Command::Select), None);
    assert_eq!(s.selected_cell(), None);
    assert_eq!(s.cursor_cell(), c(1, 1));
}

#[test]
fn server_events_update_copy_and_clear_selection() {
    let mut s = GameScene::new(two_players(), 1, 1);
    s.handle_input(Command::Up);
    s.handle_input(Command::Up);
    s.handle_input(Command::Right);
    s.handle_input(Command::Select);
    assert!(!s.possible_moves().is_empty());
    let mv = Move::Simple { from: c(1, 5), to: c(2, 4) };
    assert_eq!(s.handle_server_events(GameEvent::Move { mv, player_id: 1 }), None);
    assert_eq!(s.selected_cell(), None);
    assert!(s.possible_moves().is_empty());
    assert_eq!(
        s.game_state().grid.get(c(2, 4)),
        Some(Piece::new(PieceType::Pawn, 1))
    );
    assert_eq!(s.game_state().grid.get(c(1, 5)), None);
    let end = s.handle_server_events(GameEvent::PlayerLeft { player_id: 2 });
    assert_eq!(end, Some(ClientEvent::GoToMenu(EndGameReason::PlayerWon { winner: 1 })));
    // with one player left, input is ignored
    let before = s.cursor_cell();
    assert_eq!(s.handle_input(Command::Up), None);
    assert_eq!(s.cursor_cell(), before);
}

#[test]
fn unknown_departure_gives_no_transition() {
    let mut s = GameScene::new(two_players(), 1, 1);
    assert_eq!(s.handle_server_events(GameEvent::PlayerLeft { player_id: 7 }), None);
    assert_eq!(s.game_state().history().len(), 1);
}

#[test]
fn first_move_to_picks_earliest() {
    let moves = vec![
        Move::Simple { from: c(3, 3), to: c(2, 2) },
        Move::Capture { from: c(3, 3), to: c(5, 5), eat: c(4, 4) },
        Move::Simple { from: c(1, 1), to: c(5, 5) },
    ];
    assert_eq!(first_move_to(&moves, c(5, 5)), Some(moves[1]));
    assert_eq!(first_move_to(&moves, c(0, 0)), None);
}

#[test]
fn lobby_collects_players_until_first_turn() {
    let mut lobby = Lobby::new();
    assert_eq!(lobby.handle_server_events(GameEvent::PlayerJoined { player: player(1, 1) }), None);
    assert_eq!(lobby.handle_server_events(GameEvent::PlayerJoined { player: player(2, -1) }), None);
    assert_eq!(lobby.handle_server_events(GameEvent::PlayerLeft { player_id: 9 }), None);
    let r = lobby.handle_server_events(GameEvent::TurnChanged { player_id: 1 });
    assert_eq!(r, Some(ClientEvent::GoToGame(two_players(), 1)));
}
