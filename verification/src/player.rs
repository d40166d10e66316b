//! The immutable identity record of one player.

use vstd::prelude::*;

verus! {

/// A player's display name and marker symbol. Immutable after
/// construction; the game owns both records for its whole run.
pub struct Player {
    pub name: String,
    pub marker: char,
}

impl Player {
    /// Constructs the record as given. Name non-emptiness and marker
    /// uniqueness are invariants the game's construction step upholds,
    /// not runtime checks made here.
    pub fn new(name: String, marker: char) -> (player: Player)
        ensures
            player.name == name,
            player.marker == marker,
    {
        Player { name, marker }
    }
}

} // verus!
