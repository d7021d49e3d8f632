//! A client for the Archipelago multiworld randomizer's network protocol.
//!
//! The library holds the session state of a connected game and the rules by
//! which server messages change it. It never touches the network itself: the
//! host feeds it decoded server messages and sends the client messages that it
//! queues.
mod cache;
mod client;
mod connection;
mod connection_options;
mod endpoint;
mod error;
mod event;
mod external;
mod frame;
mod game;
mod group;
mod item;
pub mod laws;
mod local;
mod located_item;
mod location;
mod options;
mod player;
pub mod protocol;
mod roster;
mod version;

pub use cache::{chosen, kept, data_package_dir, data_package_file, game_dir, Cache};
pub use client::{
    client_updated, joined, last_within, seen_before, session_error, contains_death_link_tag, death_link_tag, event_of, fatal_input, first_game, first_unknown,
    game_for, handled, player_for, received_as, received_item_ok, received_ok, received_one, result_of,
    room_update_error, room_updated, run_so_far, scouted_as, scouted_item_ok, scouted_ok, scouted_one, step_ok,
    update_run, game_known, get_ids, has_death_link_tag, head_fields, hint_price, no_fatal,
    optional, recoverable_input, reported_len, scout_ids, Client, GetResult, PendingGet, PendingScout, ScoutResult,
};
pub use local::{
    checked_set, credited, fresh_count, listed, local_checked, local_has, local_state, local_unique, LocalLocation,
};
pub use roster::{
    data_has_location, first_named, from_network, group_slot_game, groups_slot, has_network_player, has_player,
    is_group, own_slot_game, owns_slot, players_unique, slot_game, valid_session,
};
pub use connection::{
    advanced, connecting_updated, expected_tag, hs_run, hs_step, settled, state_rank, state_type_of, Connection, ConnectionState, ConnectionStateTransition, ConnectionStateType, Connecting,
    Handshake, HandshakeStep, SocketMode,
};
pub use connection_options::{
    item_handling_bits, ConnectionOptions, ItemHandling, OTHER_WORLDS, OWN_WORLD, STARTING_INVENTORY,
};
pub use endpoint::{
    after_scheme, all_digits, authority, digits_value, host_of, index_of, path_of, port_text, scheme_of, valid_url,
    Endpoint, Scheme, DEFAULT_PORT,
};
pub use error::{connection_error_of, fatal, names_connection_error, ArgumentError, ConnectionError, Error, ProtocolError};
pub use event::{Event, Print, RichText, UpdatedField};
pub use frame::{classify_frame, Frame, FrameAction};
pub use game::{
    archipelago_name, archipelago_name_spec, first_item, first_item_named, first_location,
    first_location_named, has_item_id, has_item_named, has_location_id, has_location_named, Game,
};
pub use group::Group;
pub use item::{AsItemId, Item};
pub use located_item::{hydrated, resolvable, resolves_location, LocatedItem, ReceivedItem};
pub use location::{is_well_known, AsLocationId, Location, CHEAT_CONSOLE_ID, SERVER_ID};
pub use options::{BounceOptions, CreateHintsOptions, DeathLinkOptions};
pub use player::Player;
pub use version::{component, Version};
