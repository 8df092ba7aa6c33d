use vstd::prelude::*;

use crate::player::PlayerId;

verus! {

/// Why an event or a query was refused.
#[derive(Debug, Clone, Copy, PartialEq, Eq, Structural)]
pub enum GameError {
    /// A player with this id is already registered.
    DuplicatePlayer(PlayerId),
    /// The game already has its two players.
    GameFull,
    /// The player tried to move out of turn.
    NotYourTurn(PlayerId),
    /// No player with this id is registered.
    UnknownPlayer(PlayerId),
    /// The turn already belongs to this player.
    AlreadyPlaying(PlayerId),
    /// The game has ended.
    GameOver,
    /// The move is not one of the legal moves of the piece it starts from.
    IllegalMove,
    /// A coordinate lies outside the board.
    OutOfBounds,
}

} // verus!
