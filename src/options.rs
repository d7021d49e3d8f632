use vstd::prelude::*;

use crate::protocol::{HintStatus, Timestamp};

verus! {

/// Who receives a bounce. By default every teammate does.
#[derive(Debug)]
pub struct BounceOptions {
    pub games: Option<Vec<String>>,
    pub slots: Option<Vec<u32>>,
    pub tags: Option<Vec<String>>,
}

impl BounceOptions {
    /// No restriction on games, slots or tags.
    pub fn new() -> (r: BounceOptions)
        ensures
            r.games is None,
            r.slots is None,
            r.tags is None,
    {
        BounceOptions { games: None, slots: None, tags: None }
    }

    /// Sends only to clients playing one of `games`.
    pub fn games(self, games: Vec<String>) -> (r: BounceOptions)
        ensures
            r.games == Some(games),
            r.slots == self.slots,
            r.tags == self.tags,
    {
        BounceOptions { games: Some(games), ..self }
    }

    /// Sends only to the clients of `slots`.
    pub fn slots(self, slots: Vec<u32>) -> (r: BounceOptions)
        ensures
            r.slots == Some(slots),
            r.games == self.games,
            r.tags == self.tags,
    {
        BounceOptions { slots: Some(slots), ..self }
    }

    /// Sends only to clients with one of `tags`.
    pub fn tags(self, tags: Vec<String>) -> (r: BounceOptions)
        ensures
            r.tags == Some(tags),
            r.games == self.games,
            r.slots == self.slots,
    {
        BounceOptions { tags: Some(tags), ..self }
    }
}

/// Options for hints created on the server.
#[derive(Debug, Clone, Copy, PartialEq, Eq, Structural)]
pub struct CreateHintsOptions {
    /// The slot whose world holds the hinted locations; by default the
    /// player's own.
    pub slot: Option<u32>,
    pub status: HintStatus,
}

impl CreateHintsOptions {
    /// The player's own slot and an unspecified status.
    pub fn new() -> (r: CreateHintsOptions)
        ensures
            r.slot is None,
            r.status == HintStatus::HintUnspecified,
    {
        CreateHintsOptions { slot: None, status: HintStatus::HintUnspecified }
    }

    /// Sets the slot whose world holds the hinted locations.
    pub fn slot(self, slot: u32) -> (r: CreateHintsOptions)
        ensures
            r.slot == Some(slot),
            r.status == self.status,
    {
        CreateHintsOptions { slot: Some(slot), ..self }
    }

    /// Sets the status of the new hints.
    pub fn status(self, status: HintStatus) -> (r: CreateHintsOptions)
        ensures
            r.status == status,
            r.slot == self.slot,
    {
        CreateHintsOptions { status, ..self }
    }
}

/// Options for a death link. By default it goes to every teammate with the
/// "DeathLink" tag, is dated at the moment it is sent, names the player's
/// alias as its source and gives no cause.
#[derive(Debug)]
pub struct DeathLinkOptions {
    pub games: Option<Vec<String>>,
    pub slots: Option<Vec<u32>>,
    pub tags: Option<Vec<String>>,
    pub time: Option<Timestamp>,
    pub source: Option<String>,
    pub cause: Option<String>,
}

impl DeathLinkOptions {
    /// All defaults.
    pub fn new() -> (r: DeathLinkOptions)
        ensures
            r.games is None,
            r.slots is None,
            r.tags is None,
            r.time is None,
            r.source is None,
            r.cause is None,
    {
        DeathLinkOptions { games: None, slots: None, tags: None, time: None, source: None, cause: None }
    }

    /// Sends only to clients playing one of `games`.
    pub fn games(self, games: Vec<String>) -> (r: DeathLinkOptions)
        ensures
            r == (DeathLinkOptions { games: Some(games), ..self }),
    {
        DeathLinkOptions { games: Some(games), ..self }
    }

    /// Sends only to the clients of `slots`.
    pub fn slots(self, slots: Vec<u32>) -> (r: DeathLinkOptions)
        ensures
            r == (DeathLinkOptions { slots: Some(slots), ..self }),
    {
        DeathLinkOptions { slots: Some(slots), ..self }
    }

    /// Sends only to clients with one of `tags`; "DeathLink" is always added.
    pub fn tags(self, tags: Vec<String>) -> (r: DeathLinkOptions)
        ensures
            r == (DeathLinkOptions { tags: Some(tags), ..self }),
    {
        DeathLinkOptions { tags: Some(tags), ..self }
    }

    /// Sets when the death happened.
    pub fn time(self, time: Timestamp) -> (r: DeathLinkOptions)
        ensures
            r == (DeathLinkOptions { time: Some(time), ..self }),
    {
        DeathLinkOptions { time: Some(time), ..self }
    }

    /// Sets the name of the player who died.
    pub fn source(self, source: String) -> (r: DeathLinkOptions)
        ensures
            r == (DeathLinkOptions { source: Some(source), ..self }),
    {
        DeathLinkOptions { source: Some(source), ..self }
    }

    /// Sets the cause of death, which should name the player.
    pub fn cause(self, cause: String) -> (r: DeathLinkOptions)
        ensures
            r == (DeathLinkOptions { cause: Some(cause), ..self }),
    {
        DeathLinkOptions { cause: Some(cause), ..self }
    }
}

} // verus!
