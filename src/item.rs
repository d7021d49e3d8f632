use vstd::prelude::*;

verus! {

/// An Archipelago item of some player's game.
#[derive(Debug)]
pub struct Item {
    pub id: i64,
    pub name: String,
    pub game: String,
}

impl Item {
    /// Creates an item.
    pub fn new(id: i64, name: String, game: String) -> (r: Item)
        ensures
            r.id == id,
            r.name@ == name@,
            r.game@ == game@,
    {
        Item { id, name, game }
    }

    /// The item's numeric ID.
    pub fn id(&self) -> (r: i64)
        ensures
            r == self.id,
    {
        self.id
    }

    /// The item's name.
    pub fn name(&self) -> (r: &str)
        ensures
            r@ == self.name@,
    {
        self.name.as_str()
    }

    /// The game this item exists in.
    pub fn game(&self) -> (r: &str)
        ensures
            r@ == self.game@,
    {
        self.game.as_str()
    }
}

impl Clone for Item {
    fn clone(&self) -> (r: Self)
        ensures
            r == *self,
    {
        Item { id: self.id, name: self.name.clone(), game: self.game.clone() }
    }
}

/// Items compare by ID alone.
impl PartialEq for Item {
    fn eq(&self, other: &Item) -> (r: bool) {
        self.id == other.id
    }
}

impl vstd::std_specs::cmp::PartialEqSpecImpl for Item {
    open spec fn obeys_eq_spec() -> bool {
        true
    }

    open spec fn eq_spec(&self, other: &Item) -> bool {
        self.id == other.id
    }
}

impl Eq for Item {
}

/// A value that can be read as an Archipelago item ID.
pub trait AsItemId {
    spec fn item_id_spec(&self) -> i64;

    /// Returns this value as an Archipelago item ID.
    fn as_item_id(&self) -> (r: i64)
        ensures
            r == self.item_id_spec(),
    ;
}

impl AsItemId for Item {
    open spec fn item_id_spec(&self) -> i64 {
        self.id
    }

    fn as_item_id(&self) -> (r: i64) {
        self.id
    }
}

impl AsItemId for i64 {
    open spec fn item_id_spec(&self) -> i64 {
        *self
    }

    fn as_item_id(&self) -> (r: i64) {
        *self
    }
}

} // verus!
