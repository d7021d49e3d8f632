use vstd::prelude::*;

verus! {

/// Which items the server sends to this client.
#[derive(Debug, Clone, Copy, PartialEq, Eq, Structural)]
pub enum ItemHandling {
    /// No items at all.
    NoItems,
    /// Items from other worlds, and optionally from the player's own world and
    /// starting inventory.
    OtherWorlds { own_world: bool, starting_inventory: bool },
}

/// Items come from other worlds.
pub const OTHER_WORLDS: u8 = 1;
/// Items come from the player's own world; implies [OTHER_WORLDS].
pub const OWN_WORLD: u8 = 3;
/// Items come from the starting inventory; implies [OTHER_WORLDS].
pub const STARTING_INVENTORY: u8 = 5;

/// The items handling flags that stand for `h` on the wire.
pub open spec fn item_handling_bits(h: ItemHandling) -> u8 {
    match h {
        ItemHandling::NoItems => 0,
        ItemHandling::OtherWorlds { own_world, starting_inventory } => (1 + (if own_world {
            2int
        } else {
            0
        }) + (if starting_inventory {
            4int
        } else {
            0
        })) as u8,
    }
}

impl ItemHandling {
    /// The items handling flags sent on the wire.
    pub fn bits(&self) -> (r: u8)
        ensures
            r == item_handling_bits(*self),
    {
        match self {
            ItemHandling::NoItems => 0,
            ItemHandling::OtherWorlds { own_world, starting_inventory } => {
                let mut b: u8 = OTHER_WORLDS;
                if *own_world {
                    b = b | OWN_WORLD;
                    assert(1u8 | 3u8 == 3u8) by (bit_vector);
                }
                if *starting_inventory {
                    assert(1u8 | 5u8 == 5u8) by (bit_vector);
                    assert(3u8 | 5u8 == 7u8) by (bit_vector);
                    b = b | STARTING_INVENTORY;
                }
                b
            },
        }
    }
}

/// Options for a connection: built with [ConnectionOptions::new] and the
/// methods that follow it.
#[derive(Debug)]
pub struct ConnectionOptions {
    pub password: Option<String>,
    pub item_handling: ItemHandling,
    pub tags: Vec<String>,
    pub slot_data: bool,
}

impl ConnectionOptions {
    /// No password, items from other worlds and the starting inventory, no
    /// tags, and slot data requested.
    pub fn new() -> (r: ConnectionOptions)
        ensures
            r.password is None,
            r.item_handling == (ItemHandling::OtherWorlds { own_world: false, starting_inventory: true }),
            r.tags@.len() == 0,
            r.slot_data,
    {
        ConnectionOptions {
            password: None,
            item_handling: ItemHandling::OtherWorlds { own_world: false, starting_inventory: true },
            tags: Vec::new(),
            slot_data: true,
        }
    }

    /// Sets the player's password.
    pub fn password(self, password: String) -> (r: ConnectionOptions)
        ensures
            r.password matches Some(p) && p@ == password@,
            r.item_handling == self.item_handling,
            r.tags == self.tags,
            r.slot_data == self.slot_data,
    {
        ConnectionOptions { password: Some(password), ..self }
    }

    /// Sets which items to receive.
    pub fn receive_items(self, items: ItemHandling) -> (r: ConnectionOptions)
        ensures
            r.item_handling == items,
            r.password == self.password,
            r.tags == self.tags,
            r.slot_data == self.slot_data,
    {
        ConnectionOptions { item_handling: items, ..self }
    }

    /// Sets the tags that describe this client to the server.
    pub fn tags(self, tags: Vec<String>) -> (r: ConnectionOptions)
        ensures
            r.tags == tags,
            r.password == self.password,
            r.item_handling == self.item_handling,
            r.slot_data == self.slot_data,
    {
        ConnectionOptions { tags, ..self }
    }

    /// Asks the server not to send slot data.
    pub fn no_slot_data(self) -> (r: ConnectionOptions)
        ensures
            !r.slot_data,
            r.password == self.password,
            r.item_handling == self.item_handling,
            r.tags == self.tags,
    {
        ConnectionOptions { slot_data: false, ..self }
    }
}

impl Default for ConnectionOptions {
    fn default() -> (r: ConnectionOptions)
        ensures
            r.password is None,
            r.slot_data,
    {
        ConnectionOptions::new()
    }
}

} // verus!
