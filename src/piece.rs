use vstd::prelude::*;

use crate::player::PlayerId;

verus! {

/// The kind of a piece. Only pawns are ever placed; kings are reserved.
#[derive(Debug, Clone, Copy, PartialEq, Eq, Structural)]
pub enum PieceType {
    Pawn,
    King,
}

/// A piece on the board and the player who owns it.
#[derive(Debug, Clone, Copy, PartialEq, Eq, Structural)]
pub struct Piece {
    pub piece_type: PieceType,
    pub player_id: PlayerId,
}

impl Piece {
    pub fn new(piece_type: PieceType, player: PlayerId) -> (r: Piece)
        ensures
            r.piece_type == piece_type,
            r.player_id == player,
    {
        Piece { piece_type, player_id: player }
    }
}

} // verus!
