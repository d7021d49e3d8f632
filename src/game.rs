use vstd::prelude::*;

use crate::error::{Error, ProtocolError};
use crate::item::Item;
use crate::location::Location;
use crate::protocol::GameData;

verus! {

/// The name of the pseudo-game that owns the locations shared by all games.
pub open spec fn archipelago_name_spec() -> Seq<char> {
    "Archipelago"@
}

/// Returns the name of the pseudo-game that owns the shared locations.
pub fn archipelago_name() -> (r: String)
    ensures
        r@ == archipelago_name_spec(),
{
    String::from_str("Archipelago")
}

/// Whether `k` is the first position in `items` whose ID is `id`.
pub open spec fn first_item(items: Seq<Item>, id: i64, k: int) -> bool {
    &&& 0 <= k < items.len()
    &&& items[k].id == id
    &&& forall|j: int| 0 <= j < k ==> items[j].id != id
}

/// Whether some item in `items` has ID `id`.
pub open spec fn has_item_id(items: Seq<Item>, id: i64) -> bool {
    exists|k: int| 0 <= k < items.len() && items[k].id == id
}

/// Whether `k` is the first position in `items` whose name is `name`.
pub open spec fn first_item_named(items: Seq<Item>, name: Seq<char>, k: int) -> bool {
    &&& 0 <= k < items.len()
    &&& items[k].name@ == name
    &&& forall|j: int| 0 <= j < k ==> items[j].name@ != name
}

/// Whether some item in `items` is named `name`.
pub open spec fn has_item_named(items: Seq<Item>, name: Seq<char>) -> bool {
    exists|k: int| 0 <= k < items.len() && items[k].name@ == name
}

/// Whether `k` is the first position in `locations` whose ID is `id`.
pub open spec fn first_location(locations: Seq<Location>, id: i64, k: int) -> bool {
    &&& 0 <= k < locations.len()
    &&& locations[k].id == id
    &&& forall|j: int| 0 <= j < k ==> locations[j].id != id
}

/// Whether some location in `locations` has ID `id`.
pub open spec fn has_location_id(locations: Seq<Location>, id: i64) -> bool {
    exists|k: int| 0 <= k < locations.len() && locations[k].id == id
}

/// Whether `k` is the first position in `locations` whose name is `name`.
pub open spec fn first_location_named(locations: Seq<Location>, name: Seq<char>, k: int) -> bool {
    &&& 0 <= k < locations.len()
    &&& locations[k].name@ == name
    &&& forall|j: int| 0 <= j < k ==> locations[j].name@ != name
}

/// Whether some location in `locations` is named `name`.
pub open spec fn has_location_named(locations: Seq<Location>, name: Seq<char>) -> bool {
    exists|k: int| 0 <= k < locations.len() && locations[k].name@ == name
}

/// A game of the multiworld: a named collection of items and locations.
///
/// Lookups by ID or by name return the first entry that matches.
#[derive(Debug)]
pub struct Game {
    pub name: String,
    pub items: Vec<Item>,
    pub locations: Vec<Location>,
}

impl Game {
    /// Whether every item and location of this game names it as their game.
    pub open spec fn wf(&self) -> bool {
        &&& forall|i: int| 0 <= i < self.items.len() ==> (#[trigger] self.items[i]).game@ == self.name@
        &&& forall|i: int| 0 <= i < self.locations.len() ==> (#[trigger] self.locations[i]).game@ == self.name@
    }

    /// Builds a game from its items and locations.
    pub fn new(name: String, items: Vec<Item>, locations: Vec<Location>) -> (r: Game)
        ensures
            r.name == name,
            r.items == items,
            r.locations == locations,
    {
        Game { name, items, locations }
    }

    /// Builds a game from its name and the name-to-ID tables that the server
    /// sends for it.
    pub fn hydrate(name: String, network: GameData) -> (r: Game)
        ensures
            r.wf(),
            r.name@ == name@,
            r.items.len() == network.item_name_to_id.len(),
            forall|i: int| 0 <= i < r.items.len() ==> {
                &&& (#[trigger] r.items[i]).id == network.item_name_to_id[i].1
                &&& r.items[i].name@ == network.item_name_to_id[i].0@
            },
            r.locations.len() == network.location_name_to_id.len(),
            forall|i: int| 0 <= i < r.locations.len() ==> {
                &&& (#[trigger] r.locations[i]).id == network.location_name_to_id[i].1
                &&& r.locations[i].name@ == network.location_name_to_id[i].0@
            },
    {
        let mut items: Vec<Item> = Vec::new();
        let mut j: usize = 0;
        while j < network.item_name_to_id.len()
            invariant
                j <= network.item_name_to_id.len(),
                items.len() == j,
                forall|i: int| 0 <= i < j ==> {
                    &&& (#[trigger] items[i]).id == network.item_name_to_id[i].1
                    &&& items[i].name@ == network.item_name_to_id[i].0@
                    &&& items[i].game@ == name@
                },
            decreases network.item_name_to_id.len() - j,
        {
            let entry = &network.item_name_to_id[j];
            items.push(Item::new(entry.1, entry.0.clone(), name.clone()));
            j = j + 1;
        }
        let mut locations: Vec<Location> = Vec::new();
        let mut j: usize = 0;
        while j < network.location_name_to_id.len()
            invariant
                j <= network.location_name_to_id.len(),
                locations.len() == j,
                forall|i: int| 0 <= i < j ==> {
                    &&& (#[trigger] locations[i]).id == network.location_name_to_id[i].1
                    &&& locations[i].name@ == network.location_name_to_id[i].0@
                    &&& locations[i].game@ == name@
                },
            decreases network.location_name_to_id.len() - j,
        {
            let entry = &network.location_name_to_id[j];
            locations.push(Location::new(entry.1, entry.0.clone(), name.clone()));
            j = j + 1;
        }
        Game { name, items, locations }
    }

    /// The pseudo-game "Archipelago", which holds the shared locations: the
    /// cheat console and the server.
    pub fn archipelago() -> (r: Game)
        ensures
            r.wf(),
            r.name@ == archipelago_name_spec(),
            r.items.len() == 0,
            r.locations.len() == 2,
            r.locations[0].id == crate::location::CHEAT_CONSOLE_ID,
            r.locations[0].name@ == "Cheat Console"@,
            r.locations[1].id == crate::location::SERVER_ID,
            r.locations[1].name@ == "Server"@,
    {
        let mut locations: Vec<Location> = Vec::new();
        locations.push(Location::cheat_console());
        locations.push(Location::server());
        Game { name: archipelago_name(), items: Vec::new(), locations }
    }

    /// The game's name.
    pub fn name(&self) -> (r: &str)
        ensures
            r@ == self.name@,
    {
        self.name.as_str()
    }

    /// All the items in this game.
    pub fn items(&self) -> (r: Vec<Item>)
        ensures
            r@ == self.items@,
    {
        let mut r: Vec<Item> = Vec::new();
        let mut j: usize = 0;
        while j < self.items.len()
            invariant
                j <= self.items.len(),
                r@ == self.items@.subrange(0, j as int),
            decreases self.items.len() - j,
        {
            r.push(self.items[j].clone());
            j = j + 1;
            assert(r@ =~= self.items@.subrange(0, j as int));
        }
        assert(r@ =~= self.items@);
        r
    }

    /// All the locations in this game.
    pub fn locations(&self) -> (r: Vec<Location>)
        ensures
            r@ == self.locations@,
    {
        let mut r: Vec<Location> = Vec::new();
        let mut j: usize = 0;
        while j < self.locations.len()
            invariant
                j <= self.locations.len(),
                r@ == self.locations@.subrange(0, j as int),
            decreases self.locations.len() - j,
        {
            r.push(self.locations[j].clone());
            j = j + 1;
            assert(r@ =~= self.locations@.subrange(0, j as int));
        }
        assert(r@ =~= self.locations@);
        r
    }

    /// The position of the first item with ID `id`, if any.
    fn item_index(&self, id: i64) -> (r: Option<usize>)
        ensures
            r matches Some(k) ==> first_item(self.items@, id, k as int),
            r is None ==> !has_item_id(self.items@, id),
    {
        let mut j: usize = 0;
        while j < self.items.len()
            invariant
                j <= self.items.len(),
                forall|i: int| 0 <= i < j ==> self.items[i].id != id,
            decreases self.items.len() - j,
        {
            if self.items[j].id == id {
                return Some(j);
            }
            j = j + 1;
        }
        None
    }

    /// The position of the first item named `name`, if any.
    fn item_name_index(&self, name: &String) -> (r: Option<usize>)
        ensures
            r matches Some(k) ==> first_item_named(self.items@, name@, k as int),
            r is None ==> !has_item_named(self.items@, name@),
    {
        let mut j: usize = 0;
        while j < self.items.len()
            invariant
                j <= self.items.len(),
                forall|i: int| 0 <= i < j ==> self.items[i].name@ != name@,
            decreases self.items.len() - j,
        {
            if self.items[j].name == *name {
                return Some(j);
            }
            j = j + 1;
        }
        None
    }

    /// The position of the first location with ID `id`, if any.
    fn location_index(&self, id: i64) -> (r: Option<usize>)
        ensures
            r matches Some(k) ==> first_location(self.locations@, id, k as int),
            r is None ==> !has_location_id(self.locations@, id),
    {
        let mut j: usize = 0;
        while j < self.locations.len()
            invariant
                j <= self.locations.len(),
                forall|i: int| 0 <= i < j ==> self.locations[i].id != id,
            decreases self.locations.len() - j,
        {
            if self.locations[j].id == id {
                return Some(j);
            }
            j = j + 1;
        }
        None
    }

    /// The position of the first location named `name`, if any.
    fn location_name_index(&self, name: &String) -> (r: Option<usize>)
        ensures
            r matches Some(k) ==> first_location_named(self.locations@, name@, k as int),
            r is None ==> !has_location_named(self.locations@, name@),
    {
        let mut j: usize = 0;
        while j < self.locations.len()
            invariant
                j <= self.locations.len(),
                forall|i: int| 0 <= i < j ==> self.locations[i].name@ != name@,
            decreases self.locations.len() - j,
        {
            if self.locations[j].name == *name {
                return Some(j);
            }
            j = j + 1;
        }
        None
    }

    /// Whether this game defines an item with ID `id`.
    pub fn has_item(&self, id: i64) -> (r: bool)
        ensures
            r == has_item_id(self.items@, id),
    {
        self.item_index(id).is_some()
    }

    /// The item with ID `id`, if this game defines one.
    pub fn item(&self, id: i64) -> (r: Option<Item>)
        ensures
            r is None <==> !has_item_id(self.items@, id),
            r matches Some(it) ==> exists|k: int| first_item(self.items@, id, k) && it == self.items[k],
    {
        match self.item_index(id) {
            Some(k) => Some(self.items[k].clone()),
            None => None,
        }
    }

    /// The item with ID `id`, or a protocol error naming this game.
    pub fn item_or_err(&self, id: i64) -> (r: Result<Item, Error>)
        ensures
            r is Err <==> !has_item_id(self.items@, id),
            r matches Ok(it) ==> exists|k: int| first_item(self.items@, id, k) && it == self.items[k],
            r matches Err(e) ==> e matches Error::ProtocolError(ProtocolError::MissingItem { id: i, game: g })
                && i == id && g@ == self.name@,
    {
        match self.item(id) {
            Some(it) => Ok(it),
            None => Err(Error::ProtocolError(ProtocolError::MissingItem { id, game: self.name.clone() })),
        }
    }

    /// The item with ID `id`, which this game must define.
    pub fn assert_item(&self, id: i64) -> (r: Item)
        requires
            has_item_id(self.items@, id),
        ensures
            exists|k: int| first_item(self.items@, id, k) && r == self.items[k],
    {
        let k = self.item_index(id).unwrap();
        self.items[k].clone()
    }

    /// The item named `name`, if this game defines one.
    pub fn item_by_name(&self, name: &String) -> (r: Option<Item>)
        ensures
            r is None <==> !has_item_named(self.items@, name@),
            r matches Some(it) ==> exists|k: int| first_item_named(self.items@, name@, k) && it == self.items[k],
    {
        match self.item_name_index(name) {
            Some(k) => Some(self.items[k].clone()),
            None => None,
        }
    }

    /// The item named `name`, which this game must define.
    pub fn assert_item_by_name(&self, name: &String) -> (r: Item)
        requires
            has_item_named(self.items@, name@),
        ensures
            exists|k: int| first_item_named(self.items@, name@, k) && r == self.items[k],
    {
        let k = self.item_name_index(name).unwrap();
        self.items[k].clone()
    }

    /// Whether this game defines a location with ID `id`.
    pub fn has_location(&self, id: i64) -> (r: bool)
        ensures
            r == has_location_id(self.locations@, id),
    {
        self.location_index(id).is_some()
    }

    /// The location with ID `id`, if this game defines one.
    pub fn location(&self, id: i64) -> (r: Option<Location>)
        ensures
            r is None <==> !has_location_id(self.locations@, id),
            r matches Some(l) ==> exists|k: int| first_location(self.locations@, id, k) && l == self.locations[k],
    {
        match self.location_index(id) {
            Some(k) => Some(self.locations[k].clone()),
            None => None,
        }
    }

    /// The location with ID `id`, or a protocol error naming this game.
    pub fn location_or_err(&self, id: i64) -> (r: Result<Location, Error>)
        ensures
            r is Err <==> !has_location_id(self.locations@, id),
            r matches Ok(l) ==> exists|k: int| first_location(self.locations@, id, k) && l == self.locations[k],
            r matches Err(e) ==> e matches Error::ProtocolError(ProtocolError::MissingLocation { id: i, game: g })
                && i == id && g@ == self.name@,
    {
        match self.location(id) {
            Some(l) => Ok(l),
            None => Err(Error::ProtocolError(ProtocolError::MissingLocation { id, game: self.name.clone() })),
        }
    }

    /// Succeeds when this game defines location `id`; otherwise a protocol
    /// error naming this game.
    pub fn verify_location(&self, id: i64) -> (r: Result<(), Error>)
        ensures
            r is Ok <==> has_location_id(self.locations@, id),
            r matches Err(e) ==> e matches Error::ProtocolError(ProtocolError::MissingLocation { id: i, game: g })
                && i == id && g@ == self.name@,
    {
        if self.has_location(id) {
            Ok(())
        } else {
            Err(Error::ProtocolError(ProtocolError::MissingLocation { id, game: self.name.clone() }))
        }
    }

    /// The location with ID `id`, which this game must define.
    pub fn assert_location(&self, id: i64) -> (r: Location)
        requires
            has_location_id(self.locations@, id),
        ensures
            exists|k: int| first_location(self.locations@, id, k) && r == self.locations[k],
    {
        let k = self.location_index(id).unwrap();
        self.locations[k].clone()
    }

    /// The location named `name`, if this game defines one.
    pub fn location_by_name(&self, name: &String) -> (r: Option<Location>)
        ensures
            r is None <==> !has_location_named(self.locations@, name@),
            r matches Some(l) ==> exists|k: int| first_location_named(self.locations@, name@, k) && l == self.locations[k],
    {
        match self.location_name_index(name) {
            Some(k) => Some(self.locations[k].clone()),
            None => None,
        }
    }

    /// The location named `name`, which this game must define.
    pub fn assert_location_by_name(&self, name: &String) -> (r: Location)
        requires
            has_location_named(self.locations@, name@),
        ensures
            exists|k: int| first_location_named(self.locations@, name@, k) && r == self.locations[k],
    {
        let k = self.location_name_index(name).unwrap();
        self.locations[k].clone()
    }
}

} // verus!
