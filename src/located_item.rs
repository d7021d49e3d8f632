use vstd::prelude::*;

use crate::error::{fatal, Error};
use crate::game::{has_item_id, has_location_id, first_item, first_location, Game};
use crate::item::Item;
use crate::location::{is_well_known, Location};
use crate::player::Player;
use crate::protocol::{NetworkItem, NetworkItemFlags, PROGRESSION, TRAP, USEFUL};

verus! {

/// An item placed at a location of the sender's world, for the receiver.
///
/// The location belongs to the sender's game and the item to the receiver's.
#[derive(Debug)]
pub struct LocatedItem {
    pub item: Item,
    pub location: Location,
    pub sender: Player,
    pub receiver: Player,
    pub flags: NetworkItemFlags,
}

/// Whether `l` is what location `id` of `game` resolves to: a shared location
/// for the reserved IDs, otherwise the game's first location with that ID.
pub open spec fn resolves_location(game: Game, id: i64, l: Location) -> bool {
    if is_well_known(id) {
        &&& l.id == id
        &&& l.game@ == crate::game::archipelago_name_spec()
        &&& l.name@ == if id == crate::location::CHEAT_CONSOLE_ID {
            "Cheat Console"@
        } else {
            "Server"@
        }
    } else {
        exists|k: int| first_location(game.locations@, id, k) && l == game.locations[k]
    }
}

/// Whether `li` is what `network` resolves to between these players and
/// games: the first item of the receiver's game with the item ID, the
/// location that the ID resolves to in the sender's game, and the flags.
pub open spec fn hydrated(li: LocatedItem, network: NetworkItem, sender: Player, receiver: Player, sender_game: Game, receiver_game: Game) -> bool {
    &&& exists|k: int| first_item(receiver_game.items@, network.item, k) && li.item == receiver_game.items[k]
    &&& resolves_location(sender_game, network.location, li.location)
    &&& li.sender == sender
    &&& li.receiver == receiver
    &&& li.flags == network.flags
}

/// Whether the network item can be resolved against these games.
pub open spec fn resolvable(network: NetworkItem, sender_game: Game, receiver_game: Game) -> bool {
    &&& has_item_id(receiver_game.items@, network.item)
    &&& (is_well_known(network.location) || has_location_id(sender_game.locations@, network.location))
}

impl LocatedItem {
    /// Resolves a network item: its item in the receiver's game, its location
    /// among the shared locations or in the sender's game.
    pub fn hydrate_with_games(
        network: NetworkItem,
        sender: Player,
        receiver: Player,
        sender_game: &Game,
        receiver_game: &Game,
    ) -> (r: Result<LocatedItem, Error>)
        ensures
            r is Ok <==> resolvable(network, *sender_game, *receiver_game),
            r matches Err(e) ==> !fatal(e),
            r matches Ok(li) ==> hydrated(li, network, sender, receiver, *sender_game, *receiver_game),
    {
        let item = match receiver_game.item_or_err(network.item) {
            Ok(item) => item,
            Err(e) => return Err(e),
        };
        let location = match Location::well_known(network.location) {
            Some(location) => location,
            None => match sender_game.location_or_err(network.location) {
                Ok(location) => location,
                Err(e) => return Err(e),
            },
        };
        Ok(LocatedItem { item, location, sender, receiver, flags: network.flags })
    }

    /// The item.
    pub fn item(&self) -> (r: Item)
        ensures
            r == self.item,
    {
        self.item.clone()
    }

    /// The location that holds the item.
    pub fn location(&self) -> (r: Location)
        ensures
            r == self.location,
    {
        self.location.clone()
    }

    /// The player whose world holds the location.
    pub fn sender(&self) -> (r: &Player)
        ensures
            *r == self.sender,
    {
        &self.sender
    }

    /// The player to whom the item is sent.
    pub fn receiver(&self) -> (r: &Player)
        ensures
            *r == self.receiver,
    {
        &self.receiver
    }

    /// Whether the item can unlock logical advancement.
    pub fn is_progression(&self) -> (r: bool)
        ensures
            r == (self.flags.bits & PROGRESSION == PROGRESSION),
    {
        self.flags.contains(PROGRESSION)
    }

    /// Whether the item is especially useful.
    pub fn is_useful(&self) -> (r: bool)
        ensures
            r == (self.flags.bits & USEFUL == USEFUL),
    {
        self.flags.contains(USEFUL)
    }

    /// Whether the item is a trap.
    pub fn is_trap(&self) -> (r: bool)
        ensures
            r == (self.flags.bits & TRAP == TRAP),
    {
        self.flags.contains(TRAP)
    }
}

impl Clone for LocatedItem {
    fn clone(&self) -> (r: Self)
        ensures
            r == *self,
    {
        LocatedItem {
            item: self.item.clone(),
            location: self.location.clone(),
            sender: self.sender.clone(),
            receiver: self.receiver.clone(),
            flags: self.flags,
        }
    }
}

/// A received item, with its position in the list of all items the player
/// has ever received.
#[derive(Debug)]
pub struct ReceivedItem {
    pub item: LocatedItem,
    pub index: u64,
}

impl ReceivedItem {
    /// Pairs an item with its position.
    pub fn new(item: LocatedItem, index: u64) -> (r: ReceivedItem)
        ensures
            r.item == item,
            r.index == index,
    {
        ReceivedItem { item, index }
    }

    /// The item's position in the list of all items the player has received.
    pub fn index(&self) -> (r: u64)
        ensures
            r == self.index,
    {
        self.index
    }

    /// The item.
    pub fn item(&self) -> (r: Item)
        ensures
            r == self.item.item,
    {
        self.item.item()
    }

    /// The location that held the item.
    pub fn location(&self) -> (r: Location)
        ensures
            r == self.item.location,
    {
        self.item.location()
    }

    /// The player whose world held the item.
    pub fn sender(&self) -> (r: &Player)
        ensures
            *r == self.item.sender,
    {
        self.item.sender()
    }

    /// The player who received the item.
    pub fn receiver(&self) -> (r: &Player)
        ensures
            *r == self.item.receiver,
    {
        self.item.receiver()
    }

    /// Whether the item can unlock logical advancement.
    pub fn is_progression(&self) -> (r: bool)
        ensures
            r == (self.item.flags.bits & PROGRESSION == PROGRESSION),
    {
        self.item.is_progression()
    }

    /// Whether the item is especially useful.
    pub fn is_useful(&self) -> (r: bool)
        ensures
            r == (self.item.flags.bits & USEFUL == USEFUL),
    {
        self.item.is_useful()
    }

    /// Whether the item is a trap.
    pub fn is_trap(&self) -> (r: bool)
        ensures
            r == (self.item.flags.bits & TRAP == TRAP),
    {
        self.item.is_trap()
    }
}

} // verus!
