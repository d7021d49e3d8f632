use vstd::prelude::*;

use crate::game::{archipelago_name, archipelago_name_spec};

verus! {

/// The ID of the location that stands for items handed out from the cheat
/// console.
pub const CHEAT_CONSOLE_ID: i64 = -1;

/// The ID of the location that stands for items handed out by the server
/// itself, such as starting inventory.
pub const SERVER_ID: i64 = -2;

/// A location in a game where an item may be placed.
#[derive(Debug)]
pub struct Location {
    pub id: i64,
    pub name: String,
    pub game: String,
}

/// Whether `id` is one of the locations shared by every game.
pub open spec fn is_well_known(id: i64) -> bool {
    id == CHEAT_CONSOLE_ID || id == SERVER_ID
}

impl Location {
    /// Creates a location.
    pub fn new(id: i64, name: String, game: String) -> (r: Location)
        ensures
            r.id == id,
            r.name@ == name@,
            r.game@ == game@,
    {
        Location { id, name, game }
    }

    /// The location that stands for items handed out from the cheat console.
    pub fn cheat_console() -> (r: Location)
        ensures
            r.id == CHEAT_CONSOLE_ID,
            r.name@ == "Cheat Console"@,
            r.game@ == archipelago_name_spec(),
    {
        Location { id: CHEAT_CONSOLE_ID, name: String::from_str("Cheat Console"), game: archipelago_name() }
    }

    /// The location that stands for items handed out by the server, typically
    /// starting inventory.
    pub fn server() -> (r: Location)
        ensures
            r.id == SERVER_ID,
            r.name@ == "Server"@,
            r.game@ == archipelago_name_spec(),
    {
        Location { id: SERVER_ID, name: String::from_str("Server"), game: archipelago_name() }
    }

    /// If `id` is one of the locations shared by every game, returns it.
    pub fn well_known(id: i64) -> (r: Option<Location>)
        ensures
            r.is_some() <==> is_well_known(id),
            r matches Some(l) ==> l.id == id && l.game@ == archipelago_name_spec(),
            r matches Some(l) ==> (id == CHEAT_CONSOLE_ID ==> l.name@ == "Cheat Console"@),
            r matches Some(l) ==> (id == SERVER_ID ==> l.name@ == "Server"@),
    {
        if id == CHEAT_CONSOLE_ID {
            Some(Location::cheat_console())
        } else if id == SERVER_ID {
            Some(Location::server())
        } else {
            None
        }
    }

    /// This location's numeric ID.
    pub fn id(&self) -> (r: i64)
        ensures
            r == self.id,
    {
        self.id
    }

    /// This location's name.
    pub fn name(&self) -> (r: &str)
        ensures
            r@ == self.name@,
    {
        self.name.as_str()
    }

    /// The game this location exists in.
    pub fn game(&self) -> (r: &str)
        ensures
            r@ == self.game@,
    {
        self.game.as_str()
    }
}

impl Clone for Location {
    fn clone(&self) -> (r: Self)
        ensures
            r == *self,
    {
        Location { id: self.id, name: self.name.clone(), game: self.game.clone() }
    }
}

/// Locations compare by ID alone.
impl PartialEq for Location {
    fn eq(&self, other: &Location) -> (r: bool) {
        self.id == other.id
    }
}

impl vstd::std_specs::cmp::PartialEqSpecImpl for Location {
    open spec fn obeys_eq_spec() -> bool {
        true
    }

    open spec fn eq_spec(&self, other: &Location) -> bool {
        self.id == other.id
    }
}

impl Eq for Location {
}

/// A value that can be read as an Archipelago location ID.
pub trait AsLocationId {
    spec fn location_id_spec(&self) -> i64;

    /// Returns this value as an Archipelago location ID.
    fn as_location_id(&self) -> (r: i64)
        ensures
            r == self.location_id_spec(),
    ;
}

impl AsLocationId for Location {
    open spec fn location_id_spec(&self) -> i64 {
        self.id
    }

    fn as_location_id(&self) -> (r: i64) {
        self.id
    }
}

impl AsLocationId for i64 {
    open spec fn location_id_spec(&self) -> i64 {
        *self
    }

    fn as_location_id(&self) -> (r: i64) {
        *self
    }
}

} // verus!
