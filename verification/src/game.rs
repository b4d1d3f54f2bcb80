//! A game session in its setup phase: two independent player engines.

use vstd::prelude::*;

use crate::player::Player;

verus! {

/// Two players, each owning their board. Turn sequencing and shot
/// resolution live outside this library.
pub struct Game {
    pub player1: Player,
    pub player2: Player,
}

impl Game {
    /// A new game: both players start fresh, with an empty board, no fleet
    /// and no identity.
    pub fn new() -> (g: Game)
        ensures
            g.player1.fresh(),
            g.player2.fresh(),
    {
        Game { player1: Player::new(), player2: Player::new() }
    }
}

} // verus!
