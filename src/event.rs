use vstd::prelude::*;

use crate::error::Error;
use crate::item::Item;
use crate::located_item::LocatedItem;
use crate::location::Location;
use crate::player::Player;
use crate::protocol::{NetworkItemFlags, Permission, TextColor, Timestamp};

verus! {

/// A message for the player, with player, item and location IDs resolved.
#[derive(Debug)]
pub struct Print {
    /// The kind of message, such as `ItemSend` or `Chat`, where given.
    pub kind: Option<String>,
    pub parts: Vec<RichText>,
}

impl Print {
    /// A message made of plain text alone.
    pub fn message(text: String) -> (r: Print)
        ensures
            r.kind is None,
            r.parts.len() == 1,
            r.parts[0] == RichText::Text(text),
    {
        let mut parts: Vec<RichText> = Vec::new();
        parts.push(RichText::Text(text));
        Print { kind: None, parts }
    }
}

/// One part of a message for the player.
#[derive(Debug)]
pub enum RichText {
    Player(Player),
    PlayerName(String),
    Item { item: Item, player: Player, flags: NetworkItemFlags },
    Location { location: Location, player: Player },
    EntranceName(String),
    Color { text: String, color: TextColor },
    Text(String),
}

/// What the server has told the client.
#[derive(Debug)]
#[allow(inconsistent_fields)]
pub enum Event {
    /// The connection is established; always the first event.
    Connected,
    /// Room or connection information changed; this lists every change.
    Updated(Vec<UpdatedField>),
    /// A message to show to the player.
    Print(Print),
    /// Items received, starting at position `index` of the list of all items
    /// the player has ever received.
    ReceivedItems { index: u64, items: Vec<LocatedItem> },
    /// An error. A fatal one is reported as [Error::Elsewhere] and kept by the
    /// connection.
    Error(Error),
    /// A message from another client.
    Bounce {
        games: Option<Vec<String>>,
        slots: Option<Vec<u32>>,
        tags: Option<Vec<String>>,
        data: Option<serde_json::Value>,
    },
    /// Another player died.
    DeathLink {
        games: Option<Vec<String>>,
        slots: Option<Vec<u32>>,
        tags: Vec<String>,
        time: Timestamp,
        cause: Option<String>,
        source: String,
    },
    /// A key of the data store was written by `player`.
    KeyChanged {
        key: String,
        old_value: Option<serde_json::Value>,
        new_value: serde_json::Value,
        player: Player,
    },
}

/// One change reported by [Event::Updated], holding the previous value.
#[derive(Debug)]
pub enum UpdatedField {
    /// The server's tags changed; these are the previous ones.
    ServerTags(Vec<String>),
    /// The permissions changed; these are the previous ones.
    Permissions { release: Permission, collect: Permission, remaining: Permission },
    /// The hint cost or the points per check changed; these are the previous
    /// values.
    HintEconomy { points_per_hint: u64, hint_points_per_check: u64 },
    /// The hint points changed; this is the previous value.
    HintPoints(u64),
    /// Players were renamed; these are the players as they were.
    Players(Vec<Player>),
    /// These locations became checked.
    CheckedLocations(Vec<Location>),
}

} // verus!
