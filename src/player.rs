use vstd::prelude::*;

use crate::game::{archipelago_name, archipelago_name_spec};
use crate::protocol::NetworkPlayer;

verus! {

/// A player, that is a slot of the multiworld on some team.
#[derive(Debug)]
pub struct Player {
    pub team: u32,
    pub slot: u32,
    /// The player's current name, which the server may change.
    pub alias: String,
    /// The player's name when the multiworld was generated.
    pub name: String,
    /// The name of the game this player plays.
    pub game: String,
}

impl Player {
    /// Builds a player from the server's description and the name of the game
    /// the player plays.
    pub fn hydrate(network: NetworkPlayer, game: String) -> (r: Player)
        ensures
            r.team == network.team,
            r.slot == network.slot,
            r.alias@ == network.alias@,
            r.name@ == network.name@,
            r.game@ == game@,
    {
        Player { team: network.team, slot: network.slot, alias: network.alias, name: network.name, game }
    }

    /// The player that stands for the server itself: slot 0 of a team.
    pub fn archipelago(team: u32) -> (r: Player)
        ensures
            r.team == team,
            r.slot == 0,
            r.alias@ == archipelago_name_spec(),
            r.name@ == archipelago_name_spec(),
            r.game@ == archipelago_name_spec(),
    {
        Player { team, slot: 0, alias: archipelago_name(), name: archipelago_name(), game: archipelago_name() }
    }

    /// The player's team; 0 in multiworlds without teams.
    pub fn team(&self) -> (r: u32)
        ensures
            r == self.team,
    {
        self.team
    }

    /// The player's slot; slot 0 is the server, players count from 1.
    pub fn slot(&self) -> (r: u32)
        ensures
            r == self.slot,
    {
        self.slot
    }

    /// The player's current name.
    pub fn alias(&self) -> (r: &str)
        ensures
            r@ == self.alias@,
    {
        self.alias.as_str()
    }

    /// The player's name when the multiworld was generated.
    pub fn name(&self) -> (r: &str)
        ensures
            r@ == self.name@,
    {
        self.name.as_str()
    }

    /// The name of the game this player plays.
    pub fn game(&self) -> (r: &str)
        ensures
            r@ == self.game@,
    {
        self.game.as_str()
    }
}

impl Clone for Player {
    fn clone(&self) -> (r: Self)
        ensures
            r == *self,
    {
        Player {
            team: self.team,
            slot: self.slot,
            alias: self.alias.clone(),
            name: self.name.clone(),
            game: self.game.clone(),
        }
    }
}

/// Players compare by team and slot.
impl PartialEq for Player {
    fn eq(&self, other: &Player) -> (r: bool) {
        self.team == other.team && self.slot == other.slot
    }
}

impl vstd::std_specs::cmp::PartialEqSpecImpl for Player {
    open spec fn obeys_eq_spec() -> bool {
        true
    }

    open spec fn eq_spec(&self, other: &Player) -> bool {
        self.team == other.team && self.slot == other.slot
    }
}

impl Eq for Player {
}

} // verus!
