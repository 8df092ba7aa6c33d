use vstd::prelude::*;

verus! {

/// Identity of a connected player.
pub type PlayerId = u64;

/// A registered player: `direction` is `1` for the side that advances towards row 0
/// and `-1` for the side that advances towards the last row.
#[derive(Debug, PartialEq)]
pub struct Player {
    pub id: PlayerId,
    pub name: String,
    pub direction: i32,
    pub score: usize,
}

impl Clone for Player {
    fn clone(&self) -> (r: Player)
        ensures
            r == *self,
    {
        Player {
            id: self.id,
            name: self.name.clone(),
            direction: self.direction,
            score: self.score,
        }
    }
}

} // verus!
