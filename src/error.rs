use vstd::prelude::*;

verus! {

/// Everything that can go wrong in an Archipelago connection.
#[derive(Debug)]
pub enum Error {
    /// The underlying socket, TLS session or WebSocket failed, with its
    /// description.
    Transport(String),
    /// An outgoing message could not be encoded, with the encoder's
    /// description.
    Serialize(String),
    /// The server rejected the connection.
    ConnectionRefused(Vec<ConnectionError>),
    /// The server reported that this client sent a bad packet.
    InvalidPacket(String),
    /// The server violated the protocol as this client understands it.
    ProtocolError(ProtocolError),
    /// The caller passed an argument that cannot be sent.
    ArgumentError(ArgumentError),
    /// The connection is closed, or has not failed yet.
    ClientDisconnected,
    /// The real error is held by the connection state.
    Elsewhere,
}

/// The individual reasons the server may give for refusing a connection.
#[derive(Debug)]
pub enum ConnectionError {
    InvalidSlot,
    InvalidGame,
    InvalidVersion,
    InvalidPassword,
    InvalidItemsHandling,
    Unknown(String),
}

/// Ways in which the server can break the protocol.
#[derive(Debug)]
pub enum ProtocolError {
    /// A text frame could not be decoded into messages.
    Deserialize { json: String, error: String },
    /// The server sent a binary frame, which the protocol never uses.
    BinaryMessage(Vec<u8>),
    /// A handshake step received a message of the wrong kind.
    UnexpectedResponse { actual: String, expected: String },
    /// A response arrived for which no request is pending.
    ResponseWithoutRequest(String),
    /// No game data is known for the named game.
    MissingGameData(String),
    /// The game has no item with this ID.
    MissingItem { id: i64, game: String },
    /// The game has no location with this ID.
    MissingLocation { id: i64, game: String },
    /// No player has this team and slot.
    MissingPlayer { team: u32, slot: u32 },
    /// The slot has no slot information.
    MissingSlotInfo(u32),
    /// The player list in `Connected` was empty.
    EmptyPlayers,
    /// The hint cost is not a percentage between 0 and 100.
    InvalidHintCost(u8),
}

/// Misuse by the caller, caught before anything is sent.
#[derive(Debug)]
pub enum ArgumentError {
    /// The location does not exist in the game.
    InvalidLocation { location: i64, game: String },
    /// No teammate plays this slot.
    InvalidSlot(u32),
    /// No game of this name is part of the multiworld.
    MissingGame(String),
}

/// Whether an error ends the connection.
pub open spec fn fatal(e: Error) -> bool {
    match e {
        Error::Transport(_) | Error::Serialize(_) | Error::ConnectionRefused(_) => true,
        Error::ProtocolError(p) => p is UnexpectedResponse,
        Error::ClientDisconnected => true,
        _ => false,
    }
}

impl Error {
    /// Whether this error ends the connection. Protocol inconsistencies,
    /// invalid packets and argument errors are recoverable.
    pub fn is_fatal(&self) -> (r: bool)
        ensures
            r == fatal(*self),
    {
        match self {
            Error::Transport(_) | Error::Serialize(_) | Error::ConnectionRefused(_) => true,
            Error::ProtocolError(ProtocolError::UnexpectedResponse { .. }) => true,
            Error::ClientDisconnected => true,
            _ => false,
        }
    }
}

/// The refusal reason that the server's text names.
pub open spec fn connection_error_of(s: Seq<char>) -> ConnectionError {
    if s == "InvalidSlot"@ {
        ConnectionError::InvalidSlot
    } else if s == "InvalidGame"@ {
        ConnectionError::InvalidGame
    } else if s == "InvalidVersion"@ {
        ConnectionError::InvalidVersion
    } else if s == "InvalidPassword"@ {
        ConnectionError::InvalidPassword
    } else if s == "InvalidItemsHandling"@ {
        ConnectionError::InvalidItemsHandling
    } else {
        ConnectionError::Unknown(arbitrary())
    }
}

/// Whether `e` is the refusal reason that the text `s` names.
pub open spec fn names_connection_error(s: Seq<char>, e: ConnectionError) -> bool {
    match e {
        ConnectionError::Unknown(t) => connection_error_of(s) is Unknown && t@ == s,
        _ => e == connection_error_of(s),
    }
}

impl ConnectionError {
    /// Reads one entry of a `ConnectionRefused` error list.
    pub fn parse(value: String) -> (r: ConnectionError)
        ensures
            names_connection_error(value@, r),
    {
        if value == String::from_str("InvalidSlot") {
            ConnectionError::InvalidSlot
        } else if value == String::from_str("InvalidGame") {
            ConnectionError::InvalidGame
        } else if value == String::from_str("InvalidVersion") {
            ConnectionError::InvalidVersion
        } else if value == String::from_str("InvalidPassword") {
            ConnectionError::InvalidPassword
        } else if value == String::from_str("InvalidItemsHandling") {
            ConnectionError::InvalidItemsHandling
        } else {
            ConnectionError::Unknown(value)
        }
    }
}

} // verus!
