use vstd::prelude::*;

use crate::player::Player;

verus! {

/// A group of players who play the same game, such as an item link.
#[derive(Debug)]
pub struct Group {
    pub name: String,
    pub game: String,
    pub members: Vec<Player>,
}

impl Group {
    /// The group's name.
    pub fn name(&self) -> (r: &str)
        ensures
            r@ == self.name@,
    {
        self.name.as_str()
    }

    /// The game every member plays.
    pub fn game(&self) -> (r: &str)
        ensures
            r@ == self.game@,
    {
        self.game.as_str()
    }

    /// The members of the group.
    pub fn members(&self) -> (r: &Vec<Player>)
        ensures
            r == &self.members,
    {
        &self.members
    }
}

} // verus!
