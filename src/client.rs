use std::collections::VecDeque;

use vstd::prelude::*;

use crate::connection_options::{item_handling_bits, ItemHandling};
use crate::error::{fatal, ArgumentError, Error, ProtocolError};
use crate::event::{Event, Print, RichText, UpdatedField};
use crate::external::{complete, completion_channel};
use crate::game::{archipelago_name_spec, first_item, has_item_id, has_location_id, Game};
use crate::group::Group;
use crate::local::{
    checked_set, credited, fresh_count, listed, local_checked, local_contains, local_has, local_is_checked, local_state,
    local_unique, set_local, LocalLocation,
};
use crate::located_item::{hydrated, resolvable, resolves_location, LocatedItem};
use crate::location::is_well_known;
use crate::location::Location;
use crate::options::{BounceOptions, DeathLinkOptions};
use crate::player::Player;
use crate::protocol::Connected as ConnectedMessage;
use crate::protocol::{
    Bounce, BounceData, Bounced, ClientMessage, ClientStatus, ConnectUpdate, CreateAsHint, DataPackageObject,
    DataStorageOperation, DeathLink, GameData, Get, HintStatus, InvalidPacket, LocationChecks, LocationInfo,
    LocationScouts, NetworkItem, NetworkPlayer, NetworkPrint, NetworkSlot, NetworkText, Permission, PermissionMap,
    ReceivedItems, Retrieved, RoomInfo, RoomUpdate, Say, ServerMessage, SetNotify, SetReply, SetRequest, SlotType,
    StatusUpdate, Timestamp, UpdateHint,
};
use crate::roster::{
    find_game, find_player, from_network, has_network_player, has_own_slot, has_player, is_group, own_slot_game,
    players_unique, resolve_players, slot_game, first_named, data_has_location, valid_session,
};
use crate::version::Version;

verus! {

/// Whether `name` is a game of `games` or the shared "Archipelago" game.
pub open spec fn game_known(games: Seq<Game>, name: Seq<char>) -> bool {
    name == archipelago_name_spec() || exists|g: int| 0 <= g < games.len() && (#[trigger] games[g]).name@ == name
}

/// The number of hint points that one hint costs: `cost` percent of the
/// number of local locations, rounded down.
pub open spec fn hint_price(locations: nat, cost: u8) -> int {
    (locations * cost) as int / 100
}

/// The result handed to a location scout's completion.
pub type ScoutResult = Result<Vec<LocatedItem>, Error>;

/// The result handed to a data store read's completion.
pub type GetResult = Result<serde_json::Value, Error>;

/// A location scout waiting for its `LocationInfo`.
pub struct PendingScout {
    pub id: u64,
    pub sender: oneshot::Sender<ScoutResult>,
}

/// A data store read waiting for its `Retrieved`.
pub struct PendingGet {
    pub id: u64,
    pub sender: oneshot::Sender<GetResult>,
}

/// The request IDs of pending scouts, front first.
pub open spec fn scout_ids(q: Seq<PendingScout>) -> Seq<u64> {
    q.map_values(|p: PendingScout| p.id)
}

/// The request IDs of pending reads, front first.
pub open spec fn get_ids(q: Seq<PendingGet>) -> Seq<u64> {
    q.map_values(|p: PendingGet| p.id)
}

/// The session with the Archipelago server once the connection is
/// established: what the server has said about the multiworld, the state of
/// the player's own locations, and the requests that await an answer.
///
/// The client does no I/O. Server messages go in with [Client::receive];
/// [Client::update] handles them; the messages to send come out of
/// [Client::take_outgoing].
pub struct Client {
    /// The position of the player's own game in `games`.
    pub game_index: usize,
    pub server_version: Version,
    pub generator_version: Version,
    pub server_tags: Vec<String>,
    pub password_required: bool,
    pub permissions: PermissionMap,
    /// The percentage of the local locations that one hint costs.
    pub hint_cost_percentage: u8,
    pub hint_points_per_check: u64,
    pub hint_points: u64,
    pub seed_name: String,
    pub games: Vec<Game>,
    /// The shared "Archipelago" game.
    pub archipelago: Game,
    pub slot_data: serde_json::Value,
    pub groups: Vec<NetworkSlot>,
    pub players: Vec<Player>,
    /// The team and slot of the connected player.
    pub player_key: (u32, u32),
    /// The highest team number.
    pub teams: u32,
    /// Every location of the player's own game, and whether it is checked.
    pub local_locations: Vec<LocalLocation>,
    pub location_scouts: VecDeque<PendingScout>,
    pub gets: VecDeque<PendingGet>,
    /// The ID of the next request that awaits an answer.
    pub next_request: u64,
    /// Server messages, or transport errors, not yet handled.
    pub inbox: VecDeque<Result<crate::protocol::ServerMessage, Error>>,
    /// Messages to send to the server, oldest first.
    pub outbox: Vec<ClientMessage>,
}

impl Client {
    /// The player's own game.
    pub open spec fn this_game_spec(&self) -> Game {
        self.games[self.game_index as int]
    }

    /// The invariant of a session.
    pub open spec fn wf(&self) -> bool {
        &&& self.game_index < self.games.len()
        &&& forall|g: int| 0 <= g < self.games.len() ==> (#[trigger] self.games[g]).wf()
        &&& self.archipelago.wf()
        &&& self.archipelago.name@ == archipelago_name_spec()
        &&& self.archipelago.items@.len() == 0
        &&& self.archipelago.locations@.len() == 2
        &&& self.archipelago.locations@[0].id == crate::location::CHEAT_CONSOLE_ID
        &&& self.archipelago.locations@[0].name@ == "Cheat Console"@
        &&& self.archipelago.locations@[1].id == crate::location::SERVER_ID
        &&& self.archipelago.locations@[1].name@ == "Server"@
        &&& has_player(self.players@, self.player_key.0, self.player_key.1)
        &&& players_unique(self.players@)
        &&& forall|i: int| 0 <= i < self.players.len() ==> game_known(self.games@, (#[trigger] self.players[i]).game@)
        &&& forall|g: int, m: int|
            0 <= g < self.groups.len() && 0 <= m < self.groups[g].group_members.len()
                ==> has_player(self.players@, self.player_key.0, #[trigger] self.groups[g].group_members[m])
        &&& self.hint_cost_percentage <= 100
        &&& local_unique(self.local_locations@)
        &&& forall|k: int| 0 <= k < self.local_locations.len()
            ==> has_location_id(self.this_game_spec().locations@, (#[trigger] self.local_locations[k]).id)
    }

    /// Builds the session from the handshake's three answers: the room
    /// information, the data package and the `Connected` message, for the
    /// player's game `game`.
    ///
    /// It fails when the player list is empty, when a group member or a
    /// player has no slot information, when the connected player is not among
    /// the players, when no game data is known for `game` or for a player's
    /// game, when a group member is not a player of the connected team, when
    /// the hint cost is above 100 percent, or when a missing or checked
    /// location is not a location of `game`.
    #[verifier::loop_isolation(false)]
    pub fn new(
        game: String,
        room_info: RoomInfo,
        data_package: DataPackageObject,
        connected: ConnectedMessage,
    ) -> (r: Result<Client, Error>)
        ensures
            connected.players.len() == 0 ==> r matches Err(Error::ProtocolError(ProtocolError::EmptyPlayers)),
            r matches Err(e) ==> session_error(game@, room_info, data_package, connected, e),
            r is Ok <==> valid_session(game@, room_info, data_package, connected),
            r matches Ok(c) ==> {
                &&& c.wf()
                &&& c.player_key == (connected.team, connected.slot)
                &&& c.this_game_spec().name@ == game@
                &&& c.server_tags@ == room_info.tags@
                &&& c.password_required == room_info.password_required
                &&& c.permissions == room_info.permissions
                &&& c.hint_cost_percentage == room_info.hint_cost
                &&& c.hint_points_per_check == room_info.location_check_points
                &&& c.hint_points == connected.hint_points
                &&& c.seed_name@ == room_info.seed_name@
                &&& forall|i: int| 0 <= i < connected.players.len() ==> (#[trigger] connected.players[i]).team <= c.teams
                &&& exists|i: int| 0 <= i < connected.players.len() && (#[trigger] connected.players[i]).team == c.teams
                &&& forall|i: int| 0 <= i < connected.players.len()
                    ==> has_player(c.players@, (#[trigger] connected.players[i]).team, connected.players[i].slot)
                &&& forall|k: int| 0 <= k < c.players.len() ==> from_network(connected.players@, #[trigger] c.players[k])
                &&& forall|k: int| 0 <= k < c.players.len()
                    ==> slot_game(connected.slot_info@, (#[trigger] c.players[k]).slot) == Some(c.players[k].game@)
                &&& forall|i: int| 0 <= i < connected.missing_locations.len()
                    ==> local_has(c.local_locations@, #[trigger] connected.missing_locations[i])
                &&& forall|id: i64| local_checked(c.local_locations@, id) <==> connected.checked_locations@.contains(id)
                &&& forall|id: i64| local_has(c.local_locations@, id)
                    ==> connected.missing_locations@.contains(id) || connected.checked_locations@.contains(id)
                &&& c.location_scouts@.len() == 0
                &&& c.gets@.len() == 0
                &&& c.inbox@.len() == 0
                &&& c.outbox@.len() == 0
            },
    {
        let ghost info = connected.slot_info@;
        if connected.players.len() == 0 {
            return Err(Error::ProtocolError(ProtocolError::EmptyPlayers));
        }
        let mut teams: u32 = connected.players[0].team;
        let mut j: usize = 1;
        while j < connected.players.len()
            invariant
                1 <= j <= connected.players.len(),
                forall|i: int| 0 <= i < j ==> (#[trigger] connected.players[i]).team <= teams,
                exists|i: int| 0 <= i < j && (#[trigger] connected.players[i]).team == teams,
            decreases connected.players.len() - j,
        {
            if connected.players[j].team > teams {
                teams = connected.players[j].team;
            }
            j = j + 1;
        }

        let mut g: usize = 0;
        while g < connected.slot_info.len()
            invariant
                g <= info.len(),
                info == connected.slot_info@,
                forall|i: int, m: int|
                    0 <= i < g && is_group(info[i].1) && 0 <= m < info[i].1.group_members.len()
                        ==> own_slot_game(info, #[trigger] info[i].1.group_members[m]) is Some,
            decreases info.len() - g,
        {
            if connected.slot_info[g].1.slot_type == SlotType::Group {
                let mut m: usize = 0;
                while m < connected.slot_info[g].1.group_members.len()
                    invariant
                        g < info.len(),
                        info == connected.slot_info@,
                        is_group(info[g as int].1),
                        m <= info[g as int].1.group_members.len(),
                        forall|i: int, q: int|
                            0 <= i < g && is_group(info[i].1) && 0 <= q < info[i].1.group_members.len()
                                ==> own_slot_game(info, #[trigger] info[i].1.group_members[q]) is Some,
                        forall|q: int| 0 <= q < m ==> own_slot_game(info, #[trigger] info[g as int].1.group_members[q]) is Some,
                    decreases info[g as int].1.group_members.len() - m,
                {
                    let member = connected.slot_info[g].1.group_members[m];
                    if !has_own_slot(&connected.slot_info, member) {
                        assert(info[g as int].1.group_members[m as int] == member);
                        return Err(Error::ProtocolError(ProtocolError::MissingSlotInfo(member)));
                    }
                    m = m + 1;
                }
            }
            g = g + 1;
        }

        let players = match resolve_players(&connected.players, &connected.slot_info) {
            Ok(players) => players,
            Err(e) => return Err(e),
        };
        proof {
            assert forall|t: u32, sl: u32| has_player(players@, t, sl) <==> has_network_player(connected.players@, t, sl) by {
                if has_player(players@, t, sl) {
                    let k = choose|k: int| 0 <= k < players.len() && (#[trigger] players@[k]).team == t && players@[k].slot == sl;
                    assert(from_network(connected.players@, players@[k]));
                }
                if has_network_player(connected.players@, t, sl) {
                    let i = choose|i: int| 0 <= i < connected.players.len() && (#[trigger] connected.players@[i]).team == t
                        && connected.players@[i].slot == sl;
                    assert(has_player(players@, connected.players[i].team, connected.players[i].slot));
                }
            }
        }
        if find_player(&players, connected.team, connected.slot).is_none() {
            assert(!has_network_player(connected.players@, connected.team, connected.slot));
            return Err(Error::ProtocolError(ProtocolError::MissingPlayer { team: connected.team, slot: connected.slot }));
        }

        let mut g: usize = 0;
        while g < connected.slot_info.len()
            invariant
                g <= info.len(),
                info == connected.slot_info@,
                forall|t: u32, sl: u32| has_player(players@, t, sl) <==> has_network_player(connected.players@, t, sl),
                forall|i: int, m: int|
                    0 <= i < g && is_group(info[i].1) && 0 <= m < info[i].1.group_members.len()
                        ==> has_network_player(connected.players@, connected.team, #[trigger] info[i].1.group_members[m]),
            decreases info.len() - g,
        {
            if connected.slot_info[g].1.slot_type == SlotType::Group {
                let mut m: usize = 0;
                while m < connected.slot_info[g].1.group_members.len()
                    invariant
                        g < info.len(),
                        info == connected.slot_info@,
                        is_group(info[g as int].1),
                        m <= info[g as int].1.group_members.len(),
                        forall|t: u32, sl: u32| has_player(players@, t, sl) <==> has_network_player(connected.players@, t, sl),
                        forall|i: int, q: int|
                            0 <= i < g && is_group(info[i].1) && 0 <= q < info[i].1.group_members.len()
                                ==> has_network_player(connected.players@, connected.team, #[trigger] info[i].1.group_members[q]),
                        forall|q: int| 0 <= q < m
                            ==> has_network_player(connected.players@, connected.team, #[trigger] info[g as int].1.group_members[q]),
                    decreases info[g as int].1.group_members.len() - m,
                {
                    let member = connected.slot_info[g].1.group_members[m];
                    if find_player(&players, connected.team, member).is_none() {
                        assert(info[g as int].1.group_members[m as int] == member);
                        assert(!has_network_player(connected.players@, connected.team, member));
                        return Err(Error::ProtocolError(ProtocolError::MissingPlayer { team: connected.team, slot: member }));
                    }
                    m = m + 1;
                }
            }
            g = g + 1;
        }

        let ghost dp = data_package.games@;
        let mut entries = data_package.games;
        let mut games: Vec<Game> = Vec::new();
        while entries.len() > 0
            invariant
                games.len() + entries.len() == dp.len(),
                entries@ == dp.subrange(games.len() as int, dp.len() as int),
                forall|k: int| 0 <= k < games.len() ==> (#[trigger] games[k]).wf(),
                forall|k: int| 0 <= k < games.len() ==> (#[trigger] games[k]).name@ == dp[k].0@,
                forall|k: int, q: int| 0 <= k < games.len() && 0 <= q < games[k].locations.len()
                    ==> (#[trigger] games[k].locations[q]).id == dp[k].1.location_name_to_id[q].1,
                forall|k: int| 0 <= k < games.len() ==> (#[trigger] games[k]).locations.len() == dp[k].1.location_name_to_id.len(),
            decreases entries.len(),
        {
            let ghost n = games.len() as int;
            let (name, data) = entries.remove(0);
            assert((name, data) == dp[n]);
            games.push(Game::hydrate(name, data));
        }
        let mut rest = connected.slot_info;
        let ghost mut done: int = 0;
        let ghost mut src: Seq<int> = Seq::empty();
        let mut groups: Vec<NetworkSlot> = Vec::new();
        while rest.len() > 0
            invariant
                0 <= done <= info.len(),
                rest@ == info.subrange(done, info.len() as int),
                src.len() == groups.len(),
                forall|k: int| 0 <= k < src.len() ==> 0 <= #[trigger] src[k] < info.len() && is_group(info[src[k]].1)
                    && info[src[k]].1 == groups[k],
            decreases rest.len(),
        {
            let entry = rest.remove(0);
            assert(entry == info[done]);
            proof {
                done = done + 1;
            }
            if entry.1.slot_type == SlotType::Group {
                proof {
                    src = src.push(done - 1);
                }
                groups.push(entry.1);
            }
        }
        let game_index = match find_game(&games, &game) {
            Some(k) => k,
            None => {
                proof {
                    if exists|k: int| 0 <= k < dp.len() && (#[trigger] dp[k]).0@ == game@ {
                        let k = choose|k: int| 0 <= k < dp.len() && (#[trigger] dp[k]).0@ == game@;
                        assert(games[k].name@ == game@);
                    }
                }
                return Err(Error::ProtocolError(ProtocolError::MissingGameData(game)));
            },
        };
        proof {
            assert(first_named(dp, game@, game_index as int)) by {
                assert forall|q: int| 0 <= q < game_index implies (#[trigger] dp[q]).0@ != game@ by {
                    assert(games[q].name@ == dp[q].0@);
                }
            }
            assert forall|id: i64| has_location_id(games[game_index as int].locations@, id)
                <==> data_has_location(dp[game_index as int].1, id) by {
                let gl = games[game_index as int].locations@;
                let dl = dp[game_index as int].1.location_name_to_id;
                if has_location_id(gl, id) {
                    let q = choose|q: int| 0 <= q < gl.len() && (#[trigger] gl[q]).id == id;
                    assert(games[game_index as int].locations[q].id == dl[q].1);
                }
                if data_has_location(dp[game_index as int].1, id) {
                    let q = choose|q: int| 0 <= q < dl.len() && (#[trigger] dl[q]).1 == id;
                    assert(games[game_index as int].locations[q].id == dl[q].1);
                }
            }
        }

        let archipelago_game = Game::archipelago();
        let mut k: usize = 0;
        while k < players.len()
            invariant
                k <= players.len(),
                archipelago_game.name@ == archipelago_name_spec(),
                forall|q: int| 0 <= q < k ==> game_known(games@, (#[trigger] players[q]).game@),
            decreases players.len() - k,
        {
            if find_game(&games, &players[k].game).is_none() && players[k].game != archipelago_game.name {
                proof {
                    assert(from_network(connected.players@, players[k as int]));
                    let i = choose|i: int| 0 <= i < connected.players.len() && (#[trigger] connected.players@[i]).team
                        == players[k as int].team && connected.players@[i].slot == players[k as int].slot
                        && connected.players@[i].alias@ == players[k as int].alias@ && connected.players@[i].name@ == players[k as int].name@;
                    assert(slot_game(info, connected.players[i].slot) == Some(players[k as int].game@));
                    if exists|q: int| 0 <= q < dp.len() && (#[trigger] dp[q]).0@ == players[k as int].game@ {
                        let q = choose|q: int| 0 <= q < dp.len() && (#[trigger] dp[q]).0@ == players[k as int].game@;
                        assert(games[q].name@ == dp[q].0@);
                    }
                    assert(connected.players[i].slot == players[k as int].slot);
                }
                return Err(Error::ProtocolError(ProtocolError::MissingGameData(players[k].game.clone())));
            }
            k = k + 1;
        }

        if room_info.hint_cost > 100 {
            return Err(Error::ProtocolError(ProtocolError::InvalidHintCost(room_info.hint_cost)));
        }

        let mut local: Vec<LocalLocation> = Vec::new();
        let mut j: usize = 0;
        while j < connected.missing_locations.len()
            invariant
                j <= connected.missing_locations.len(),
                local_unique(local@),
                forall|q: int| 0 <= q < local.len()
                    ==> has_location_id(games[game_index as int].locations@, (#[trigger] local[q]).id),
                forall|i: int| 0 <= i < j ==> local_has(local@, #[trigger] connected.missing_locations[i]),
                forall|i: int| 0 <= i < j ==> data_has_location(dp[game_index as int].1, #[trigger] connected.missing_locations[i]),
                forall|id: i64| local_has(local@, id) ==> connected.missing_locations@.contains(id),
                forall|id: i64| !local_checked(local@, id),
            decreases connected.missing_locations.len() - j,
        {
            let id = connected.missing_locations[j];
            if let Err(e) = games[game_index].verify_location(id) {
                return Err(e);
            }
            set_local(&mut local, id, false);
            assert(connected.missing_locations@[j as int] == id);
            j = j + 1;
        }
        let mut j: usize = 0;
        while j < connected.checked_locations.len()
            invariant
                j <= connected.checked_locations.len(),
                local_unique(local@),
                forall|q: int| 0 <= q < local.len()
                    ==> has_location_id(games[game_index as int].locations@, (#[trigger] local[q]).id),
                forall|i: int| 0 <= i < connected.missing_locations.len()
                    ==> local_has(local@, #[trigger] connected.missing_locations[i]),
                forall|i: int| 0 <= i < j ==> local_checked(local@, #[trigger] connected.checked_locations[i]),
                forall|i: int| 0 <= i < j ==> data_has_location(dp[game_index as int].1, #[trigger] connected.checked_locations[i]),
                forall|id: i64| local_has(local@, id)
                    ==> connected.missing_locations@.contains(id) || connected.checked_locations@.contains(id),
                forall|id: i64| local_checked(local@, id) ==> connected.checked_locations@.contains(id),
            decreases connected.checked_locations.len() - j,
        {
            let id = connected.checked_locations[j];
            if let Err(e) = games[game_index].verify_location(id) {
                return Err(e);
            }
            set_local(&mut local, id, true);
            assert(connected.checked_locations@[j as int] == id);
            j = j + 1;
        }
        assert forall|id: i64| connected.checked_locations@.contains(id) implies local_checked(local@, id) by {
            let i = choose|i: int| 0 <= i < connected.checked_locations@.len() && connected.checked_locations@[i] == id;
            assert(local_checked(local@, connected.checked_locations[i]));
        }
        proof {
            assert forall|k2: int| first_named(dp, game@, k2) implies k2 == game_index by {
                if k2 < game_index {
                    assert(games[k2].name@ == dp[k2].0@);
                } else if k2 > game_index {
                    assert(dp[game_index as int].0@ == game@);
                }
            }
            assert forall|i: int| 0 <= i < connected.players.len() implies match slot_game(info, (#[trigger] connected.players[i]).slot) {
                Some(gn) => gn == archipelago_name_spec() || exists|q: int| 0 <= q < dp.len() && (#[trigger] dp[q]).0@ == gn,
                None => true,
            } by {
                assert(has_player(players@, connected.players[i].team, connected.players[i].slot));
                let q = choose|q: int| 0 <= q < players.len() && (#[trigger] players@[q]).team == connected.players[i].team
                    && players@[q].slot == connected.players[i].slot;
                assert(game_known(games@, players[q].game@));
                if players[q].game@ != archipelago_name_spec() {
                    let w = choose|w: int| 0 <= w < games.len() && (#[trigger] games[w]).name@ == players[q].game@;
                    assert(dp[w].0@ == games[w].name@);
                }
            }
            assert forall|i: int| 0 <= i < connected.players.len() implies slot_game(info, (#[trigger] connected.players[i]).slot) is Some by {
                assert(has_player(players@, connected.players[i].team, connected.players[i].slot));
                let q = choose|q: int| 0 <= q < players.len() && (#[trigger] players@[q]).team == connected.players[i].team
                    && players@[q].slot == connected.players[i].slot;
            }
            assert forall|gi: int, m: int|
                0 <= gi < groups.len() && 0 <= m < groups[gi].group_members.len()
                    implies has_player(players@, connected.team, #[trigger] groups[gi].group_members[m]) by {
                let i = src[gi];
                assert(info[i].1 == groups[gi]);
                assert(info[i].1.group_members[m] == groups[gi].group_members[m]);
            }
        }

        Ok(Client {
            game_index,
            server_version: Version::from_network(&room_info.version),
            generator_version: Version::from_network(&room_info.generator_version),
            server_tags: room_info.tags,
            password_required: room_info.password_required,
            permissions: room_info.permissions,
            hint_cost_percentage: room_info.hint_cost,
            hint_points_per_check: room_info.location_check_points,
            hint_points: connected.hint_points,
            seed_name: room_info.seed_name,
            games,
            archipelago: archipelago_game,
            slot_data: connected.slot_data,
            groups,
            players,
            player_key: (connected.team, connected.slot),
            teams,
            local_locations: local,
            location_scouts: VecDeque::new(),
            gets: VecDeque::new(),
            next_request: 0,
            inbox: VecDeque::new(),
            outbox: Vec::new(),
        })
    }

    /// Checks that every ID of `locations` is a location of the player's own
    /// game; the error names the first that is not.
    pub fn verify_local_locations(&self, locations: &Vec<i64>) -> (r: Result<(), Error>)
        requires
            self.wf(),
        ensures
            r is Ok <==> forall|i: int| 0 <= i < locations.len()
                ==> has_location_id(self.this_game_spec().locations@, #[trigger] locations[i]),
            r matches Err(e) ==> e matches Error::ArgumentError(ArgumentError::InvalidLocation { location, game })
                && first_unknown(self.this_game_spec(), locations@, location) && game@ == self.this_game_spec().name@,
    {
        let game = self.this_game();
        let mut j: usize = 0;
        while j < locations.len()
            invariant
                j <= locations.len(),
                *game == self.this_game_spec(),
                forall|i: int| 0 <= i < j ==> has_location_id(game.locations@, #[trigger] locations[i]),
            decreases locations.len() - j,
        {
            let id = locations[j];
            if !game.has_location(id) {
                assert(locations@[j as int] == id);
                assert(first_unknown(self.this_game_spec(), locations@, id)) by {
                    assert(0 <= j < locations@.len() && locations@[j as int] == id);
                }
                return Err(Error::ArgumentError(ArgumentError::InvalidLocation { location: id, game: game.name.clone() }));
            }
            j = j + 1;
        }
        Ok(())
    }

    /// Reports the given locations as checked. They are marked checked at
    /// once, without waiting for the server, and each one that was not checked
    /// before earns the hint points per check.
    ///
    /// Fails, sending nothing and changing nothing, when an ID is not a
    /// location of the player's own game.
    pub fn mark_checked(&mut self, locations: Vec<i64>) -> (r: Result<(), Error>)
        requires
            old(self).wf(),
        ensures
            final(self).wf(),
            r is Ok <==> forall|i: int| 0 <= i < locations.len()
                ==> has_location_id(old(self).this_game_spec().locations@, #[trigger] locations[i]),
            r matches Err(e) ==> {
                &&& *final(self) == *old(self)
                &&& e matches Error::ArgumentError(ArgumentError::InvalidLocation { location, game })
                    && first_unknown(old(self).this_game_spec(), locations@, location)
                    && game@ == old(self).this_game_spec().name@
            },
            r is Ok ==> {
                &&& final(self).outbox@.len() == old(self).outbox@.len() + 1
                &&& final(self).outbox@.subrange(0, old(self).outbox@.len() as int) == old(self).outbox@
                &&& final(self).outbox@.last() matches ClientMessage::LocationChecks(m) && m.locations@ == locations@
                &&& forall|i: int| 0 <= i < locations.len() ==> local_checked(final(self).local_locations@, #[trigger] locations[i])
                &&& forall|id: i64| !locations@.contains(id)
                    ==> local_checked(final(self).local_locations@, id) == local_checked(old(self).local_locations@, id)
                &&& final(self).hint_points == credited(
                    old(self).hint_points,
                    old(self).hint_points_per_check,
                    fresh_count(checked_set(old(self).local_locations@), locations@),
                )
                &&& final(self).hint_points_per_check == old(self).hint_points_per_check
                &&& final(self).hint_cost_percentage == old(self).hint_cost_percentage
                &&& final(self).games == old(self).games
                &&& final(self).game_index == old(self).game_index
                &&& final(self).players == old(self).players
                &&& final(self).player_key == old(self).player_key
                &&& final(self).location_scouts == old(self).location_scouts
                &&& final(self).gets == old(self).gets
                &&& final(self).inbox == old(self).inbox
            },
    {
        if let Err(e) = self.verify_local_locations(&locations) {
            return Err(e);
        }
        let ghost before = self.local_locations@;
        let ghost all = locations@;
        let mut fresh: usize = 0;
        let mut j: usize = 0;
        assert(all.skip(0) =~= all);
        while j < locations.len()
            invariant
                j <= locations.len(),
                all == locations@,
                fresh <= j,
                local_unique(self.local_locations@),
                forall|q: int| 0 <= q < self.local_locations.len()
                    ==> has_location_id(old(self).this_game_spec().locations@, (#[trigger] self.local_locations@[q]).id),
                forall|i: int| 0 <= i < locations.len()
                    ==> has_location_id(old(self).this_game_spec().locations@, #[trigger] locations[i]),
                forall|i: int| 0 <= i < j ==> local_checked(self.local_locations@, #[trigger] locations[i]),
                forall|id: i64| local_checked(before, id) ==> local_checked(self.local_locations@, id),
                forall|id: i64| !all.subrange(0, j as int).contains(id)
                    ==> local_checked(self.local_locations@, id) == local_checked(before, id),
                fresh + fresh_count(checked_set(self.local_locations@), all.skip(j as int))
                    == fresh_count(checked_set(before), all),
                self.game_index == old(self).game_index,
                self.games == old(self).games,
                self.players == old(self).players,
                self.player_key == old(self).player_key,
                self.hint_points == old(self).hint_points,
                self.hint_points_per_check == old(self).hint_points_per_check,
                self.hint_cost_percentage == old(self).hint_cost_percentage,
                self.outbox == old(self).outbox,
                self.location_scouts == old(self).location_scouts,
                self.gets == old(self).gets,
                self.inbox == old(self).inbox,
                self.groups == old(self).groups,
                self.archipelago == old(self).archipelago,
            decreases locations.len() - j,
        {
            let id = locations[j];
            let was = local_is_checked(&self.local_locations, id);
            let ghost cur = self.local_locations@;
            set_local(&mut self.local_locations, id, true);
            proof {
                let rest = all.skip(j as int);
                assert(rest[0] == id);
                assert(rest.drop_first() =~= all.skip(j + 1));
                assert(checked_set(self.local_locations@) =~= checked_set(cur).insert(id)) by {
                    assert forall|x: i64| checked_set(self.local_locations@).contains(x)
                        == checked_set(cur).insert(id).contains(x) by {
                        if x != id {
                            assert(local_checked(self.local_locations@, x) == local_checked(cur, x));
                        }
                    }
                }
                if was {
                    assert(checked_set(cur).contains(id));
                    assert(checked_set(cur).insert(id) =~= checked_set(cur));
                }
                assert forall|id2: i64| !all.subrange(0, j + 1).contains(id2)
                    implies local_checked(self.local_locations@, id2) == local_checked(before, id2) by {
                    assert(all.subrange(0, j + 1)[j as int] == id);
                    if all.subrange(0, j as int).contains(id2) {
                        let w = choose|w: int| 0 <= w < j && all.subrange(0, j as int)[w] == id2;
                        assert(all.subrange(0, j + 1)[w] == id2);
                    }
                }
                assert forall|q: int| 0 <= q < self.local_locations.len()
                    implies has_location_id(old(self).this_game_spec().locations@, (#[trigger] self.local_locations@[q]).id) by {
                    let x = self.local_locations@[q].id;
                    if x != id {
                        let w = choose|w: int| 0 <= w < cur.len() && (#[trigger] cur[w]).id == x;
                        assert(has_location_id(old(self).this_game_spec().locations@, cur[w].id));
                    }
                }
            }
            if !was {
                fresh = fresh + 1;
            }
            j = j + 1;
        }
        proof {
            assert(all.skip(j as int).len() == 0);
            assert forall|id2: i64| !all.contains(id2)
                implies local_checked(self.local_locations@, id2) == local_checked(before, id2) by {
                assert(all.subrange(0, j as int) =~= all);
            }
        }
        proof {
            let a = fresh as u128;
            let b = self.hint_points_per_check as u128;
            assert(a * b <= (u64::MAX as u128) * (u64::MAX as u128)) by (nonlinear_arith)
                requires
                    a <= u64::MAX,
                    b <= u64::MAX,
            ;
        }
        let total = self.hint_points as u128 + fresh as u128 * self.hint_points_per_check as u128;
        self.hint_points = if total > u64::MAX as u128 {
            u64::MAX
        } else {
            total as u64
        };
        self.outbox.push(ClientMessage::LocationChecks(LocationChecks { locations }));
        Ok(())
    }

    /// Whether `after` differs from `before` by one more outgoing message.
    pub open spec fn sent_one(before: &Client, after: &Client) -> bool {
        &&& after.outbox@.len() == before.outbox@.len() + 1
        &&& after.outbox@.subrange(0, before.outbox@.len() as int) =~= before.outbox@
    }

    /// Whether `after` is `before` with only the outbox changed.
    pub open spec fn only_outbox_changed(before: &Client, after: &Client) -> bool {
        after == (Client { outbox: after.outbox, ..*before })
    }

    /// Hands over a server message, or a transport error, for [Client::update].
    pub fn receive(&mut self, input: Result<ServerMessage, Error>)
        ensures
            final(self).inbox@ == old(self).inbox@.push(input),
            *final(self) == (Client { inbox: final(self).inbox, ..*old(self) }),
    {
        self.inbox.push_back(input);
    }

    /// Takes the messages waiting to be sent, oldest first.
    pub fn take_outgoing(&mut self) -> (r: Vec<ClientMessage>)
        ensures
            r@ == old(self).outbox@,
            final(self).outbox@.len() == 0,
            Client::only_outbox_changed(old(self), final(self)),
    {
        let mut out: Vec<ClientMessage> = Vec::new();
        std::mem::swap(&mut out, &mut self.outbox);
        out
    }

    /// Changes the items handling and/or the tags of the connection.
    pub fn update_connection(&mut self, item_handling: Option<ItemHandling>, tags: Option<Vec<String>>) -> (r: Result<
        (),
        Error,
    >)
        ensures
            r is Ok,
            Client::sent_one(old(self), final(self)),
            Client::only_outbox_changed(old(self), final(self)),
            final(self).outbox@.last() matches ClientMessage::ConnectUpdate(m) && m.tags == tags && (match item_handling {
                Some(h) => m.items_handling == Some(item_handling_bits(h)),
                None => m.items_handling is None,
            }),
    {
        let items_handling = match item_handling {
            Some(h) => Some(h.bits()),
            None => None,
        };
        self.outbox.push(ClientMessage::ConnectUpdate(ConnectUpdate { items_handling, tags }));
        Ok(())
    }

    /// Asks the server to send again every item the player ever received.
    pub fn sync(&mut self) -> (r: Result<(), Error>)
        ensures
            r is Ok,
            Client::sent_one(old(self), final(self)),
            Client::only_outbox_changed(old(self), final(self)),
            final(self).outbox@.last() is Sync,
    {
        self.outbox.push(ClientMessage::Sync);
        Ok(())
    }

    /// Asks which items stand at the given locations of the player's own
    /// game, optionally making them hints. The answer completes the returned
    /// receiver when its `LocationInfo` arrives; scouts are answered in the
    /// order they were sent.
    ///
    /// When an ID is not a location of the player's game, nothing is sent and
    /// the receiver completes at once with the error.
    pub fn scout_locations(&mut self, locations: Vec<i64>, create_as_hint: CreateAsHint) -> (r: oneshot::Receiver<
        ScoutResult,
    >)
        requires
            old(self).wf(),
        ensures
            final(self).wf(),
            (forall|i: int| 0 <= i < locations.len()
                ==> has_location_id(old(self).this_game_spec().locations@, #[trigger] locations[i])) ==> {
                &&& Client::sent_one(old(self), final(self))
                &&& final(self).outbox@.last() matches ClientMessage::LocationScouts(m)
                    && m.locations == locations && m.create_as_hint == create_as_hint
                &&& scout_ids(final(self).location_scouts@) == scout_ids(old(self).location_scouts@).push(
                    old(self).next_request,
                )
                &&& *final(self) == (Client {
                    outbox: final(self).outbox,
                    location_scouts: final(self).location_scouts,
                    next_request: final(self).next_request,
                    ..*old(self)
                })
            },
            !(forall|i: int| 0 <= i < locations.len()
                ==> has_location_id(old(self).this_game_spec().locations@, #[trigger] locations[i]))
                ==> *final(self) == *old(self),
    {
        let (sender, receiver) = completion_channel();
        match self.verify_local_locations(&locations) {
            Ok(()) => {
                self.outbox.push(ClientMessage::LocationScouts(LocationScouts { locations, create_as_hint }));
                let id = self.next_request;
                self.location_scouts.push_back(PendingScout { id, sender });
                self.next_request = if id == u64::MAX {
                    0
                } else {
                    id + 1
                };
                assert(scout_ids(self.location_scouts@) =~= scout_ids(old(self).location_scouts@).push(id));
            },
            Err(e) => complete(sender, Err(e)),
        }
        receiver
    }

    /// Changes the status of the hint for `location` in the world of the
    /// teammate playing `slot`.
    ///
    /// Fails, sending nothing, when no teammate plays `slot` or when the
    /// location is not one of that player's game.
    pub fn update_hint(&mut self, slot: u32, location: i64, status: HintStatus) -> (r: Result<(), Error>)
        requires
            old(self).wf(),
        ensures
            final(self).wf(),
            r is Ok <==> has_player(old(self).players@, old(self).player_key.0, slot) && has_location_id(
                game_for(*old(self), player_for(*old(self), old(self).player_key.0, slot).game@).locations@,
                location,
            ),
            !has_player(old(self).players@, old(self).player_key.0, slot) ==> (r matches Err(
                Error::ArgumentError(ArgumentError::InvalidSlot(s)),
            ) && s == slot),
            has_player(old(self).players@, old(self).player_key.0, slot) && r is Err ==> (r matches Err(
                Error::ArgumentError(ArgumentError::InvalidLocation { location: l, game: g }),
            ) && l == location && g@ == player_for(*old(self), old(self).player_key.0, slot).game@),
            r is Err ==> *final(self) == *old(self),
            r is Ok ==> {
                &&& Client::sent_one(old(self), final(self))
                &&& Client::only_outbox_changed(old(self), final(self))
                &&& final(self).outbox@.last() matches ClientMessage::UpdateHint(m)
                    && m.player == slot && m.location == location && m.status == status
            },
    {
        let player = match self.player_or_err(self.player_key.0, slot) {
            Ok(p) => p,
            Err(_) => return Err(Error::ArgumentError(ArgumentError::InvalidSlot(slot))),
        };
        proof {
            let k = choose|k: int| 0 <= k < self.players.len() && player == self.players[k];
            assert(game_known(self.games@, self.players[k].game@));
        }
        let game = self.known_game(&player.game);
        if !game.has_location(location) {
            return Err(Error::ArgumentError(ArgumentError::InvalidLocation { location, game: game.name.clone() }));
        }
        self.outbox.push(ClientMessage::UpdateHint(UpdateHint { player: slot, location, status }));
        Ok(())
    }

    /// Reports the client's status.
    pub fn set_status(&mut self, status: ClientStatus) -> (r: Result<(), Error>)
        ensures
            r is Ok,
            Client::sent_one(old(self), final(self)),
            Client::only_outbox_changed(old(self), final(self)),
            final(self).outbox@.last() matches ClientMessage::StatusUpdate(m) && m.status == status,
    {
        self.outbox.push(ClientMessage::StatusUpdate(StatusUpdate { status }));
        Ok(())
    }

    /// Reads keys of the server's data store. The answer completes the
    /// returned receiver when its `Retrieved` arrives; reads are answered in
    /// the order they were sent.
    pub fn get(&mut self, keys: Vec<String>) -> (r: oneshot::Receiver<GetResult>)
        ensures
            Client::sent_one(old(self), final(self)),
            final(self).outbox@.last() matches ClientMessage::Get(m) && m.keys == keys,
            get_ids(final(self).gets@) == get_ids(old(self).gets@).push(old(self).next_request),
            *final(self) == (Client {
                outbox: final(self).outbox,
                gets: final(self).gets,
                next_request: final(self).next_request,
                ..*old(self)
            }),
    {
        let (sender, receiver) = completion_channel();
        self.outbox.push(ClientMessage::Get(Get { keys }));
        let id = self.next_request;
        self.gets.push_back(PendingGet { id, sender });
        self.next_request = if id == u64::MAX {
            0
        } else {
            id + 1
        };
        assert(get_ids(self.gets@) =~= get_ids(old(self).gets@).push(id));
        receiver
    }

    /// Replaces the value of `key` in the data store. With `emit_event`, an
    /// [crate::Event::KeyChanged] reports the write even if the key is not
    /// watched.
    pub fn set(&mut self, key: String, value: serde_json::Value, emit_event: bool) -> (r: Result<(), Error>)
        ensures
            r is Ok,
            Client::sent_one(old(self), final(self)),
            Client::only_outbox_changed(old(self), final(self)),
            final(self).outbox@.last() matches ClientMessage::SetRequest(m) && m.key == key && m.default is None
                && m.want_reply == emit_event && m.operations@.len() == 1
                && m.operations@[0] == DataStorageOperation::Replace(value),
    {
        let mut operations: Vec<DataStorageOperation> = Vec::new();
        operations.push(DataStorageOperation::Replace(value));
        self.outbox.push(ClientMessage::SetRequest(SetRequest { key, default: None, want_reply: emit_event, operations }));
        Ok(())
    }

    /// Applies `operations` in order to the value of `key`, starting from
    /// `default` when the key has no value.
    pub fn change(
        &mut self,
        key: String,
        default: serde_json::Value,
        operations: Vec<DataStorageOperation>,
        emit_event: bool,
    ) -> (r: Result<(), Error>)
        ensures
            r is Ok,
            Client::sent_one(old(self), final(self)),
            Client::only_outbox_changed(old(self), final(self)),
            final(self).outbox@.last() matches ClientMessage::SetRequest(m) && m.key == key
                && m.default == Some(default) && m.want_reply == emit_event && m.operations == operations,
    {
        self.outbox.push(ClientMessage::SetRequest(SetRequest { key, default: Some(default), want_reply: emit_event, operations }));
        Ok(())
    }

    /// Subscribes to writes of `keys`.
    pub fn watch(&mut self, keys: Vec<String>) -> (r: Result<(), Error>)
        ensures
            r is Ok,
            Client::sent_one(old(self), final(self)),
            Client::only_outbox_changed(old(self), final(self)),
            final(self).outbox@.last() matches ClientMessage::SetNotify(m) && m.keys == keys,
    {
        self.outbox.push(ClientMessage::SetNotify(SetNotify { keys }));
        Ok(())
    }

    /// Sends a chat message.
    pub fn say(&mut self, text: String) -> (r: Result<(), Error>)
        ensures
            r is Ok,
            Client::sent_one(old(self), final(self)),
            Client::only_outbox_changed(old(self), final(self)),
            final(self).outbox@.last() matches ClientMessage::Say(m) && m.text == text,
    {
        self.outbox.push(ClientMessage::Say(Say { text }));
        Ok(())
    }

    /// Sends `data` to the clients that `options` selects.
    pub fn bounce(&mut self, data: Option<serde_json::Value>, options: BounceOptions) -> (r: Result<(), Error>)
        ensures
            r is Ok,
            Client::sent_one(old(self), final(self)),
            Client::only_outbox_changed(old(self), final(self)),
            final(self).outbox@.last() matches ClientMessage::Bounce(m) && m.games == options.games
                && m.slots == options.slots && m.tags == options.tags && m.data == BounceData::Generic(data),
    {
        let BounceOptions { games, slots, tags } = options;
        self.outbox.push(ClientMessage::Bounce(Bounce { games, slots, tags, data: BounceData::Generic(data) }));
        Ok(())
    }

    /// Tells the clients that `options` selects that this player died. The
    /// death is dated `now` unless the options give a time, and its source is
    /// the player's alias unless the options name one. The "DeathLink" tag is
    /// always among the tags.
    pub fn death_link(&mut self, options: DeathLinkOptions, now: Timestamp) -> (r: Result<(), Error>)
        requires
            old(self).wf(),
        ensures
            r is Ok,
            Client::sent_one(old(self), final(self)),
            Client::only_outbox_changed(old(self), final(self)),
            final(self).outbox@.last() matches ClientMessage::Bounce(m) && m.games == options.games
                && m.slots == options.slots && (m.tags matches Some(tags) && has_death_link_tag(tags@))
                && (m.data matches BounceData::DeathLink(d) && d.time == (match options.time {
                    Some(t) => t,
                    None => now,
                }) && d.cause == options.cause && (match options.source {
                    Some(s) => d.source == s,
                    None => exists|k: int| 0 <= k < old(self).players.len()
                        && old(self).players[k].team == old(self).player_key.0
                        && old(self).players[k].slot == old(self).player_key.1
                        && d.source@ == old(self).players[k].alias@,
                })),
    {
        let DeathLinkOptions { games, slots, tags, time, source, cause } = options;
        let time = match time {
            Some(t) => t,
            None => now,
        };
        let source = match source {
            Some(s) => s,
            None => self.this_player().alias.clone(),
        };
        let tags = with_death_link_tag(tags);
        self.outbox.push(ClientMessage::Bounce(Bounce {
            games,
            slots,
            tags: Some(tags),
            data: BounceData::DeathLink(DeathLink { time, cause, source }),
        }));
        Ok(())
    }

    /// Whether every field of `update` can be applied to this session.
    pub open spec fn room_update_valid(&self, update: RoomUpdate) -> bool {
        &&& (update.hint_cost matches Some(c) ==> c <= 100)
        &&& (update.checked_locations matches Some(ids) ==> forall|i: int|
            0 <= i < ids.len() ==> local_has(self.local_locations@, #[trigger] ids[i]))
        &&& (update.players matches Some(ps) ==> forall|i: int|
            0 <= i < ps.len() ==> has_player(self.players@, (#[trigger] ps[i]).team, ps[i].slot))
    }

    /// Applies a `RoomUpdate`. Every field is checked before any is applied:
    /// on an error the session is unchanged.
    ///
    /// The event lists, for each field that the update holds, what it
    /// replaced; checked locations list only those that were not checked yet.
    #[verifier::rlimit(60)]
    pub fn update_room(&mut self, update: RoomUpdate) -> (r: Result<Event, Error>)
        requires
            old(self).wf(),
        ensures
            final(self).wf(),
            room_updated(*old(self), update, *final(self), r),
    {
        if let Err(e) = self.check_room_update(&update) {
            return Err(e);
        }
        let RoomUpdate { tags, permissions, hint_cost, location_check_points, hint_points, players, checked_locations } =
            update;
        let ghost o = *old(self);
        let mut updated = self.apply_head(tags, permissions, hint_cost, location_check_points, hint_points);
        assert(updated@ =~= head_fields(o, update));
        let ghost head = updated@;
        if let Some(ps) = players {
            let replaced = self.rename_players(ps);
            updated.push(UpdatedField::Players(replaced));
        }
        assert(updated@.subrange(0, head.len() as int) =~= head);
        let ghost renamed = *self;
        if let Some(ids) = checked_locations {
            let newly = self.check_locations(&ids);
            updated.push(UpdatedField::CheckedLocations(newly));
        }
        assert(updated@.subrange(0, head.len() as int) =~= head);
        assert(self.players == renamed.players);
        assert forall|t: u32, sl: u32| #[trigger] player_for(*self, t, sl) == player_for(renamed, t, sl) by {
            assert(self.players@ == renamed.players@);
        }
        Ok(Event::Updated(updated))
    }

    /// Checks every field of a room update against this session.
    #[verifier::loop_isolation(false)]
    fn check_room_update(&self, update: &RoomUpdate) -> (r: Result<(), Error>)
        requires
            self.wf(),
        ensures
            r is Ok <==> self.room_update_valid(*update),
            r matches Err(e) ==> room_update_error(*self, *update, e),
    {
        if let Some(c) = update.hint_cost {
            if c > 100 {
                return Err(Error::ProtocolError(ProtocolError::InvalidHintCost(c)));
            }
        }
        if let Some(ids) = &update.checked_locations {
            let mut j: usize = 0;
            while j < ids.len()
                invariant
                    j <= ids.len(),
                    update.checked_locations == Some(*ids),
                    (update.hint_cost matches Some(c) ==> c <= 100),
                    forall|i: int| 0 <= i < j ==> local_has(self.local_locations@, #[trigger] ids[i]),
                decreases ids.len() - j,
            {
                if !local_contains(&self.local_locations, ids[j]) {
                    assert(ids@[j as int] == ids[j as int]);
                    return Err(Error::ProtocolError(
                        ProtocolError::MissingLocation { id: ids[j], game: self.games[self.game_index].name.clone() },
                    ));
                }
                j = j + 1;
            }
        }
        if let Some(ps) = &update.players {
            let mut j: usize = 0;
            while j < ps.len()
                invariant
                    j <= ps.len(),
                    update.players == Some(*ps),
                    (update.hint_cost matches Some(c) ==> c <= 100),
                    (update.checked_locations matches Some(ids) ==> forall|i: int|
                        0 <= i < ids.len() ==> local_has(self.local_locations@, #[trigger] ids[i])),
                    forall|i: int| 0 <= i < j ==> has_player(self.players@, (#[trigger] ps[i]).team, ps[i].slot),
                decreases ps.len() - j,
            {
                if let Err(e) = self.player_or_err(ps[j].team, ps[j].slot) {
                    return Err(e);
                }
                j = j + 1;
            }
        }
        Ok(())
    }

    /// Applies the room-wide fields of a room update and reports what each
    /// replaced.
    #[verifier::rlimit(40)]
    #[verifier::spinoff_prover]
    fn apply_head(
        &mut self,
        tags: Option<Vec<String>>,
        permissions: Option<PermissionMap>,
        hint_cost: Option<u8>,
        location_check_points: Option<u64>,
        hint_points: Option<u64>,
    ) -> (r: Vec<UpdatedField>)
        requires
            old(self).wf(),
            hint_cost matches Some(c) ==> c <= 100,
        ensures
            final(self).wf(),
            r@ == head_fields(
                *old(self),
                RoomUpdate { tags, permissions, hint_cost, location_check_points, hint_points, players: None, checked_locations: None },
            ),
            *final(self) == (Client {
                server_tags: match tags {
                    Some(t) => t,
                    None => old(self).server_tags,
                },
                permissions: match permissions {
                    Some(p) => p,
                    None => old(self).permissions,
                },
                hint_cost_percentage: match hint_cost {
                    Some(c) => c,
                    None => old(self).hint_cost_percentage,
                },
                hint_points_per_check: match location_check_points {
                    Some(c) => c,
                    None => old(self).hint_points_per_check,
                },
                hint_points: match hint_points {
                    Some(h) => h,
                    None => old(self).hint_points,
                },
                ..*old(self)
            }),
    {
        let ghost o = *old(self);
        let ghost u = RoomUpdate { tags, permissions, hint_cost, location_check_points, hint_points, players: None, checked_locations: None };
        let mut updated: Vec<UpdatedField> = Vec::new();
        if let Some(t) = tags {
            let mut t = t;
            std::mem::swap(&mut t, &mut self.server_tags);
            updated.push(UpdatedField::ServerTags(t));
        }
        assert(updated@ =~= optional(u.tags is Some, UpdatedField::ServerTags(o.server_tags)));
        if let Some(p) = permissions {
            updated.push(UpdatedField::Permissions {
                release: self.permissions.release,
                collect: self.permissions.collect,
                remaining: self.permissions.remaining,
            });
            self.permissions = p;
        }
        let ghost two = updated@;
        if hint_cost.is_some() || location_check_points.is_some() {
            updated.push(UpdatedField::HintEconomy {
                points_per_hint: self.points_per_hint(),
                hint_points_per_check: self.hint_points_per_check,
            });
            if let Some(c) = hint_cost {
                self.hint_cost_percentage = c;
            }
            if let Some(c) = location_check_points {
                self.hint_points_per_check = c;
            }
        }
        let ghost three = updated@;
        if let Some(h) = hint_points {
            updated.push(UpdatedField::HintPoints(self.hint_points));
            self.hint_points = h;
        }
        assert(updated@ =~= head_fields(o, u));
        updated
    }

    /// Gives each listed player the listed alias where it differs, and
    /// returns the players as they were before.
    fn rename_players(&mut self, ps: Vec<NetworkPlayer>) -> (r: Vec<Player>)
        requires
            old(self).wf(),
            forall|i: int| 0 <= i < ps.len() ==> has_player(old(self).players@, (#[trigger] ps[i]).team, ps[i].slot),
        ensures
            final(self).wf(),
            final(self).players.len() == old(self).players.len(),
            forall|k: int| 0 <= k < final(self).players.len() ==> {
                &&& (#[trigger] final(self).players[k]).team == old(self).players[k].team
                &&& final(self).players[k].slot == old(self).players[k].slot
                &&& final(self).players[k].name == old(self).players[k].name
                &&& final(self).players[k].game == old(self).players[k].game
                &&& (final(self).players[k].alias == old(self).players[k].alias || exists|i: int|
                    0 <= i < ps.len() && (#[trigger] ps[i]).team == final(self).players[k].team
                    && ps[i].slot == final(self).players[k].slot && ps[i].alias == final(self).players[k].alias)
            },
            forall|i: int| 0 <= i < ps.len() && last_within(ps@, i, ps.len() as int)
                ==> (#[trigger] player_for(*final(self), ps[i].team, ps[i].slot)).alias@ == ps[i].alias@,
            forall|k: int| 0 <= k < r.len() ==> has_player(old(self).players@, (#[trigger] r[k]).team, r[k].slot),
            *final(self) == (Client { players: final(self).players, ..*old(self) }),
    {
        let mut replaced: Vec<Player> = Vec::new();
        let mut j: usize = 0;
        while j < ps.len()
            invariant
                j <= ps.len(),
                self.wf(),
                *self == (Client { players: self.players, ..*old(self) }),
                self.players.len() == old(self).players.len(),
                forall|i: int| 0 <= i < ps.len() ==> has_player(self.players@, (#[trigger] ps[i]).team, ps[i].slot),
                forall|k: int| 0 <= k < self.players.len() ==> {
                    &&& (#[trigger] self.players[k]).team == old(self).players[k].team
                    &&& self.players[k].slot == old(self).players[k].slot
                    &&& self.players[k].name == old(self).players[k].name
                    &&& self.players[k].game == old(self).players[k].game
                    &&& (self.players[k].alias == old(self).players[k].alias || exists|i: int|
                        0 <= i < ps.len() && (#[trigger] ps[i]).team == self.players[k].team
                        && ps[i].slot == self.players[k].slot && ps[i].alias == self.players[k].alias)
                },
                forall|i: int| 0 <= i < j && last_within(ps@, i, j as int)
                    ==> (#[trigger] player_for(*self, ps[i].team, ps[i].slot)).alias@ == ps[i].alias@,
                forall|q: int| 0 <= q < replaced.len() ==> has_player(old(self).players@, (#[trigger] replaced[q]).team, replaced[q].slot),
            decreases ps.len() - j,
        {
            let ghost s0 = *self;
            let k = find_player(&self.players, ps[j].team, ps[j].slot).unwrap();
            if self.players[k].alias != ps[j].alias {
                let renamed = Player {
                    team: self.players[k].team,
                    slot: self.players[k].slot,
                    alias: ps[j].alias.clone(),
                    name: self.players[k].name.clone(),
                    game: self.players[k].game.clone(),
                };
                let ghost before = self.players@;
                let mut previous = renamed;
                std::mem::swap(&mut previous, &mut self.players[k]);
                replaced.push(previous);
                proof {
                    assert(self.players@ == before.update(k as int, self.players@[k as int]));
                    assert forall|a: int, b: int|
                        0 <= a < self.players.len() && 0 <= b < self.players.len() && (#[trigger] self.players@[a]).team
                            == (#[trigger] self.players@[b]).team && self.players@[a].slot == self.players@[b].slot
                        implies a == b by {
                        assert(before[a].team == before[b].team && before[a].slot == before[b].slot);
                    }
                    assert forall|i: int| 0 <= i < ps.len() implies has_player(self.players@, (#[trigger] ps[i]).team, ps[i].slot) by {
                        let q = choose|q: int| 0 <= q < before.len() && (#[trigger] before[q]).team == ps[i].team
                            && before[q].slot == ps[i].slot;
                        assert(self.players@[q].team == ps[i].team);
                    }
                    assert(ps@[j as int].team == self.players@[k as int].team);
                    assert forall|q: int| 0 <= q < self.players.len()
                        implies game_known(self.games@, (#[trigger] self.players[q]).game@) by {
                        assert(self.players@[q].game == old(self).players@[q].game);
                        assert(game_known(old(self).games@, old(self).players[q].game@));
                    }
                    assert(has_player(self.players@, self.player_key.0, self.player_key.1)) by {
                        let q = choose|q: int| 0 <= q < before.len() && (#[trigger] before[q]).team == self.player_key.0
                            && before[q].slot == self.player_key.1;
                        assert(self.players@[q].team == self.player_key.0);
                    }
                    assert forall|g: int, m: int|
                        0 <= g < self.groups.len() && 0 <= m < self.groups[g].group_members.len()
                        implies has_player(self.players@, self.player_key.0, #[trigger] self.groups[g].group_members[m]) by {
                        let q = choose|q: int| 0 <= q < before.len() && (#[trigger] before[q]).team == self.player_key.0
                            && before[q].slot == self.groups[g].group_members[m];
                        assert(self.players@[q].team == self.player_key.0);
                    }
                }
            }
            proof {
                let s1 = *self;
                assert(s1.players@[k as int].team == ps[j as int].team && s1.players@[k as int].slot == ps[j as int].slot);
                assert(s1.players@[k as int].alias@ == ps[j as int].alias@);
                lemma_player_for(s1, ps[j as int].team, ps[j as int].slot, k as int);
                assert forall|i: int| 0 <= i < j + 1 && last_within(ps@, i, j + 1)
                    implies (#[trigger] player_for(s1, ps[i].team, ps[i].slot)).alias@ == ps[i].alias@ by {
                    if i < j {
                        assert(!(ps@[j as int].team == ps@[i].team && ps@[j as int].slot == ps@[i].slot));
                        assert(last_within(ps@, i, j as int));
                        lemma_player_for_other(s0, s1, k as int, ps[i].team, ps[i].slot);
                    }
                }
            }
            j = j + 1;
        }
        replaced
    }

    /// Marks the listed locations of the player's own game as checked, and
    /// returns those that were not checked before, each once.
    fn check_locations(&mut self, ids: &Vec<i64>) -> (r: Vec<Location>)
        requires
            old(self).wf(),
            forall|i: int| 0 <= i < ids.len() ==> local_has(old(self).local_locations@, #[trigger] ids[i]),
        ensures
            final(self).wf(),
            forall|i: int| 0 <= i < ids.len() ==> local_checked(final(self).local_locations@, #[trigger] ids[i]),
            forall|id: i64| local_checked(old(self).local_locations@, id) ==> local_checked(final(self).local_locations@, id),
            forall|id: i64| !ids@.contains(id)
                ==> local_checked(final(self).local_locations@, id) == local_checked(old(self).local_locations@, id),
            forall|id: i64| local_has(final(self).local_locations@, id) == local_has(old(self).local_locations@, id),
            forall|id: i64| listed(r@, id) <==> ids@.contains(id) && !local_checked(old(self).local_locations@, id),
            forall|a: int, b: int| 0 <= a < b < r.len() ==> (#[trigger] r[a]).id != (#[trigger] r[b]).id,
            *final(self) == (Client { local_locations: final(self).local_locations, ..*old(self) }),
    {
        let ghost before = self.local_locations@;
        let mut newly: Vec<Location> = Vec::new();
        let mut j: usize = 0;
        while j < ids.len()
            invariant
                j <= ids.len(),
                *self == (Client { local_locations: self.local_locations, ..*old(self) }),
                old(self).wf(),
                before == old(self).local_locations@,
                local_unique(self.local_locations@),
                forall|q: int| 0 <= q < self.local_locations.len()
                    ==> has_location_id(old(self).this_game_spec().locations@, (#[trigger] self.local_locations@[q]).id),
                forall|i: int| 0 <= i < ids.len() ==> local_has(before, #[trigger] ids[i]),
                forall|id: i64| local_has(self.local_locations@, id) == local_has(before, id),
                forall|i: int| 0 <= i < j ==> local_checked(self.local_locations@, #[trigger] ids[i]),
                forall|id: i64| local_checked(before, id) ==> local_checked(self.local_locations@, id),
                forall|id: i64| !ids@.subrange(0, j as int).contains(id)
                    ==> local_checked(self.local_locations@, id) == local_checked(before, id),
                forall|x: i64| #![trigger listed(newly@, x)] #![trigger ids@.subrange(0, j as int).contains(x)]
                    listed(newly@, x) <==> ids@.subrange(0, j as int).contains(x) && !local_checked(before, x),
                forall|a: int, b: int| 0 <= a < b < newly.len() ==> (#[trigger] newly[a]).id != (#[trigger] newly[b]).id,
            decreases ids.len() - j,
        {
            let id = ids[j];
            let ghost jj: int = j as int;
            assert(ids@[j as int] == id);
            let was = local_is_checked(&self.local_locations, id);
            let ghost cur = self.local_locations@;
            let ghost prev = newly@;
            assert(forall|x: i64| listed(prev, x) <==> (ids@.subrange(0, j as int).contains(x) && !local_checked(before, x)));
            set_local(&mut self.local_locations, id, true);
            proof {
                assert forall|id2: i64| local_has(self.local_locations@, id2) == local_has(before, id2) by {
                    if id2 == id {
                        assert(local_has(before, ids[j as int]));
                    }
                }
                lemma_prefix_grows(ids@, j as int);
            }
            if !was {
                proof {
                    assert(local_has(cur, id));
                    let w = choose|w: int| 0 <= w < cur.len() && (#[trigger] cur[w]).id == id;
                    assert(has_location_id(old(self).this_game_spec().locations@, cur[w].id));
                    assert(!local_checked(before, id));
                    if ids@.subrange(0, j as int).contains(id) {
                        let q = choose|q: int| 0 <= q < j && #[trigger] ids@.subrange(0, j as int)[q] == id;
                        assert(local_checked(cur, ids[q]));
                    }
                    assert(!listed(prev, id));
                }
                let game = &self.games[self.game_index];
                let location = game.assert_location(id);
                newly.push(location);
                proof {
                    let n = prev.len() as int;
                    assert(newly@ == prev.push(location));
                    lemma_listed_push(prev, location);
                    assert forall|a: int, b: int| 0 <= a < b < newly.len() implies (#[trigger] newly[a]).id
                        != (#[trigger] newly[b]).id by {
                        if b < n {
                            assert(prev[a] == newly@[a] && prev[b] == newly@[b]);
                        } else {
                            assert(prev[a] == newly@[a]);
                            assert(listed(prev, prev[a].id));
                        }
                    }
                }
            } else {
                proof {
                    if !local_checked(before, id) && !ids@.subrange(0, j as int).contains(id) {
                        assert(local_checked(cur, id) == local_checked(before, id));
                    }
                }
            }
            proof {
                assert forall|x: i64| #![trigger listed(newly@, x)] listed(newly@, x) <==> ids@.subrange(0, j + 1).contains(x)
                    && !local_checked(before, x) by {
                    if x == id {
                        if !was {
                            assert(listed(newly@, x));
                        } else if !local_checked(before, x) {
                            assert(ids@.subrange(0, j as int).contains(x));
                        }
                    } else {
                        assert(listed(newly@, x) == listed(prev, x));
                        assert(ids@.subrange(0, j + 1).contains(x) == ids@.subrange(0, j as int).contains(x));
                        assert(listed(prev, x) == (ids@.subrange(0, j as int).contains(x) && !local_checked(before, x)));
                    }
                }
                assert forall|id2: i64| !ids@.subrange(0, j + 1).contains(id2)
                    implies local_checked(self.local_locations@, id2) == local_checked(before, id2) by {
                    assert(ids@.subrange(0, j + 1)[j as int] == id);
                    if ids@.subrange(0, j as int).contains(id2) {
                        let w = choose|w: int| 0 <= w < j && #[trigger] ids@.subrange(0, j as int)[w] == id2;
                        assert(ids@.subrange(0, j + 1)[w] == id2);
                    }
                }
                assert forall|q: int| 0 <= q < self.local_locations.len()
                    implies has_location_id(old(self).this_game_spec().locations@, (#[trigger] self.local_locations@[q]).id) by {
                    let x = self.local_locations@[q].id;
                    if x != id {
                        let w = choose|w: int| 0 <= w < cur.len() && (#[trigger] cur[w]).id == x;
                        assert(has_location_id(old(self).this_game_spec().locations@, cur[w].id));
                    } else {
                        let w = choose|w: int| 0 <= w < cur.len() && (#[trigger] cur[w]).id == id;
                        assert(has_location_id(old(self).this_game_spec().locations@, cur[w].id));
                    }
                }
            }
            j = j + 1;
            assert(ids@.subrange(0, j as int) == ids@.subrange(0, jj + 1));
            assert forall|x: i64| #![trigger listed(newly@, x)] #![trigger ids@.subrange(0, j as int).contains(x)]
                listed(newly@, x) <==> ids@.subrange(0, j as int).contains(x) && !local_checked(before, x) by {
                assert(listed(newly@, x) <==> ids@.subrange(0, jj + 1).contains(x) && !local_checked(before, x));
            }
        }
        proof {
            assert(ids@.subrange(0, j as int) =~= ids@);
        }
        newly
    }

    /// The game named `name`, known to exist because a player plays it.
    fn known_game(&self, name: &String) -> (r: &Game)
        requires
            self.wf(),
            game_known(self.games@, name@),
        ensures
            r.name@ == name@,
            r.wf(),
            *r == game_for(*self, name@),
    {
        self.game(name).unwrap()
    }

    /// Resolves the items of a `ReceivedItems` message: each was sent by the
    /// teammate its entry names, from a location of that player's game, to
    /// the connected player.
    pub fn hydrate_received(&self, items: &Vec<NetworkItem>) -> (r: Result<Vec<LocatedItem>, Error>)
        requires
            self.wf(),
        ensures
            r matches Err(e) ==> !fatal(e),
            r is Ok <==> received_ok(*self, items@),
            r matches Ok(v) ==> received_as(*self, items@, v@),
    {
        let receiver = self.this_player();
        let receiver_game = self.this_game();
        let mut out: Vec<LocatedItem> = Vec::new();
        let mut j: usize = 0;
        while j < items.len()
            invariant
                self.wf(),
                j <= items.len(),
                out.len() == j,
                *receiver == player_for(*self, self.player_key.0, self.player_key.1),
                *receiver_game == self.this_game_spec(),
                forall|i: int| 0 <= i < j ==> received_item_ok(*self, #[trigger] items@[i]),
                forall|i: int| 0 <= i < j ==> received_one(*self, items@[i], #[trigger] out@[i]),
            decreases items.len() - j,
        {
            let network = items[j];
            let sender = match self.player_or_err(self.player_key.0, network.player) {
                Ok(p) => p,
                Err(e) => {
                    assert(!received_item_ok(*self, items@[j as int]));
                    return Err(e);
                },
            };
            proof {
                let k = choose|k: int| 0 <= k < self.players.len() && sender == self.players[k];
                assert(game_known(self.games@, self.players[k].game@));
            }
            let sender_game = self.known_game(&sender.game);
            match LocatedItem::hydrate_with_games(network, sender, receiver.clone(), sender_game, receiver_game) {
                Ok(li) => {
                    out.push(li);
                    assert(received_one(*self, items@[j as int], out@[j as int]));
                },
                Err(e) => {
                    assert(!received_item_ok(*self, items@[j as int]));
                    return Err(e);
                },
            }
            j = j + 1;
        }
        Ok(out)
    }

    /// Resolves the items of a `LocationInfo` message: each stands at a
    /// location of the connected player's game and is meant for the teammate
    /// its entry names.
    pub fn hydrate_scouted(&self, items: &Vec<NetworkItem>) -> (r: Result<Vec<LocatedItem>, Error>)
        requires
            self.wf(),
        ensures
            r matches Err(e) ==> !fatal(e),
            r is Ok <==> scouted_ok(*self, items@),
            r matches Ok(v) ==> scouted_as(*self, items@, v@),
    {
        let sender = self.this_player();
        let sender_game = self.this_game();
        let mut out: Vec<LocatedItem> = Vec::new();
        let mut j: usize = 0;
        while j < items.len()
            invariant
                self.wf(),
                j <= items.len(),
                out.len() == j,
                *sender == player_for(*self, self.player_key.0, self.player_key.1),
                *sender_game == self.this_game_spec(),
                forall|i: int| 0 <= i < j ==> scouted_item_ok(*self, #[trigger] items@[i]),
                forall|i: int| 0 <= i < j ==> scouted_one(*self, items@[i], #[trigger] out@[i]),
            decreases items.len() - j,
        {
            let network = items[j];
            let receiver = match self.player_or_err(self.player_key.0, network.player) {
                Ok(p) => p,
                Err(e) => {
                    assert(!scouted_item_ok(*self, items@[j as int]));
                    return Err(e);
                },
            };
            proof {
                let k = choose|k: int| 0 <= k < self.players.len() && receiver == self.players[k];
                assert(game_known(self.games@, self.players[k].game@));
            }
            let receiver_game = self.known_game(&receiver.game);
            match LocatedItem::hydrate_with_games(network, sender.clone(), receiver, sender_game, receiver_game) {
                Ok(li) => {
                    out.push(li);
                    assert(scouted_one(*self, items@[j as int], out@[j as int]));
                },
                Err(e) => {
                    assert(!scouted_item_ok(*self, items@[j as int]));
                    return Err(e);
                },
            }
            j = j + 1;
        }
        Ok(out)
    }

    /// Whether `r` is what the message part `part` resolves to in this
    /// session.
    pub open spec fn hydrates_to(&self, part: NetworkText, r: Result<RichText, Error>) -> bool {
        match part {
            NetworkText::PlayerId { id } => match r {
                Ok(RichText::Player(p)) => has_player(self.players@, self.player_key.0, id)
                    && p == player_for(*self, self.player_key.0, id),
                Ok(_) => false,
                Err(e) => !fatal(e) && !has_player(self.players@, self.player_key.0, id),
            },
            NetworkText::ItemId { id, player, flags } => match r {
                Ok(RichText::Item { item, player: p, flags: f }) => {
                    &&& has_player(self.players@, self.player_key.0, player)
                    &&& p == player_for(*self, self.player_key.0, player)
                    &&& f == flags
                    &&& exists|k: int| first_item(game_for(*self, p.game@).items@, id, k)
                        && item == game_for(*self, p.game@).items[k]
                },
                Ok(_) => false,
                Err(e) => !fatal(e) && (!has_player(self.players@, self.player_key.0, player) || !has_item_id(
                    game_for(*self, player_for(*self, self.player_key.0, player).game@).items@,
                    id,
                )),
            },
            NetworkText::LocationId { id, player } => match r {
                Ok(RichText::Location { location, player: p }) => {
                    &&& has_player(self.players@, self.player_key.0, player)
                    &&& p == player_for(*self, self.player_key.0, player)
                    &&& resolves_location(game_for(*self, p.game@), id, location)
                },
                Ok(_) => false,
                Err(e) => !fatal(e) && (!has_player(self.players@, self.player_key.0, player) || (!is_well_known(id)
                    && !has_location_id(game_for(*self, player_for(*self, self.player_key.0, player).game@).locations@, id))),
            },
            NetworkText::PlayerName { text } => r == Ok::<RichText, Error>(RichText::PlayerName(text)),
            NetworkText::EntranceName { text } => r == Ok::<RichText, Error>(RichText::EntranceName(text)),
            NetworkText::Color { text, color } => r == Ok::<RichText, Error>(RichText::Color { text, color }),
            NetworkText::Text { text } => r == Ok::<RichText, Error>(RichText::Text(text)),
        }
    }

    /// Resolves one part of a rich message: a player ID to the teammate, an
    /// item ID to the item of the receiving teammate's game, a location ID to
    /// a shared location or one of the sending teammate's game. Other parts
    /// are kept as they are.
    pub fn hydrate_text(&self, part: NetworkText) -> (r: Result<RichText, Error>)
        requires
            self.wf(),
        ensures
            r matches Err(e) ==> !fatal(e),
            self.hydrates_to(part, r),
    {
        match part {
            NetworkText::PlayerId { id } => match self.player_or_err(self.player_key.0, id) {
                Ok(p) => Ok(RichText::Player(p)),
                Err(e) => Err(e),
            },
            NetworkText::ItemId { id, player, flags } => {
                let p = match self.player_or_err(self.player_key.0, player) {
                    Ok(p) => p,
                    Err(e) => return Err(e),
                };
                proof {
                    let k = choose|k: int| 0 <= k < self.players.len() && p == self.players[k];
                    assert(game_known(self.games@, self.players[k].game@));
                }
                let game = self.known_game(&p.game);
                match game.item_or_err(id) {
                    Ok(item) => Ok(RichText::Item { item, player: p, flags }),
                    Err(e) => Err(e),
                }
            },
            NetworkText::LocationId { id, player } => {
                let p = match self.player_or_err(self.player_key.0, player) {
                    Ok(p) => p,
                    Err(e) => return Err(e),
                };
                proof {
                    let k = choose|k: int| 0 <= k < self.players.len() && p == self.players[k];
                    assert(game_known(self.games@, self.players[k].game@));
                }
                let location = match Location::well_known(id) {
                    Some(l) => l,
                    None => match self.known_game(&p.game).location_or_err(id) {
                        Ok(l) => l,
                        Err(e) => return Err(e),
                    },
                };
                Ok(RichText::Location { location, player: p })
            },
            NetworkText::PlayerName { text } => Ok(RichText::PlayerName(text)),
            NetworkText::EntranceName { text } => Ok(RichText::EntranceName(text)),
            NetworkText::Color { text, color } => Ok(RichText::Color { text, color }),
            NetworkText::Text { text } => Ok(RichText::Text(text)),
        }
    }

    /// Resolves every part of a rich message, in order; the first part that
    /// cannot be resolved gives the error.
    #[verifier::loop_isolation(false)]
    pub fn hydrate_print(&self, print: NetworkPrint) -> (r: Result<Print, Error>)
        requires
            self.wf(),
        ensures
            r matches Err(e) ==> !fatal(e),
            r matches Ok(p) ==> p.kind == print.kind && p.parts.len() == print.data.len() && forall|i: int|
                0 <= i < p.parts.len() ==> self.hydrates_to(print.data[i], Ok(#[trigger] p.parts[i])),
            r matches Err(e) ==> exists|i: int| 0 <= i < print.data.len() && self.hydrates_to(#[trigger] print.data[i], Err(e)),
    {
        let NetworkPrint { kind, data } = print;
        let ghost all = data@;
        let mut data = data;
        let mut parts: Vec<RichText> = Vec::new();
        while data.len() > 0
            invariant
                self.wf(),
                parts.len() + data.len() == all.len(),
                data@ == all.subrange(parts.len() as int, all.len() as int),
                forall|i: int| 0 <= i < parts.len() ==> self.hydrates_to(all[i], Ok(#[trigger] parts[i])),
            decreases data.len(),
        {
            let ghost j = parts.len() as int;
            let part = data.remove(0);
            assert(part == all[j]);
            match self.hydrate_text(part) {
                Ok(t) => {
                    parts.push(t);
                    assert(parts@[j] == t);
                },
                Err(e) => return Err(e),
            }
        }
        Ok(Print { kind, parts })
    }

    /// Handles one server message, or one error handed over by the transport,
    /// adding at most one event to `events`.
    pub fn handle(&mut self, input: Result<ServerMessage, Error>, events: &mut Vec<Event>)
        requires
            old(self).wf(),
        ensures
            final(self).wf(),
            old(events)@.len() <= final(events)@.len() <= old(events)@.len() + 1,
            final(events)@.subrange(0, old(events)@.len() as int) =~= old(events)@,
            final(self).outbox == old(self).outbox,
            final(self).inbox == old(self).inbox,
            forall|id: i64| local_checked(old(self).local_locations@, id) ==> local_checked(final(self).local_locations@, id),
            recoverable_input(input) && no_fatal(old(events)@) ==> no_fatal(final(events)@),
            handled(*old(self), input, *final(self), final(events)@.skip(old(events)@.len() as int)),
    {
        let ghost n0 = events@.len();
        match input {
            Err(e) => events.push(Event::Error(e)),
            Ok(ServerMessage::RichPrint(print)) => match self.hydrate_print(print) {
                Ok(p) => events.push(Event::Print(p)),
                Err(e) => events.push(Event::Error(e)),
            },
            Ok(ServerMessage::Print(p)) => events.push(Event::Print(Print::message(p.text))),
            Ok(ServerMessage::RoomUpdate(u)) => {
                let r = self.update_room(u);
                match r {
                    Ok(event) => events.push(event),
                    Err(e) => events.push(Event::Error(e)),
                }
                proof {
                    assert(events@.skip(old(events)@.len() as int) =~= seq![event_of(r)]);
                }
            },
            Ok(ServerMessage::ReceivedItems(ReceivedItems { index, items })) => match self.hydrate_received(&items) {
                Ok(items) => events.push(Event::ReceivedItems { index, items }),
                Err(e) => events.push(Event::Error(e)),
            },
            Ok(ServerMessage::LocationInfo(LocationInfo { locations })) => {
                let result = self.hydrate_scouted(&locations);
                match self.location_scouts.pop_front() {
                    Some(pending) => {
                        complete(pending.sender, result);
                        assert(scout_ids(self.location_scouts@) =~= scout_ids(old(self).location_scouts@).drop_first());
                    },
                    None => events.push(
                        Event::Error(
                            Error::ProtocolError(ProtocolError::ResponseWithoutRequest(String::from_str("LocationInfo"))),
                        ),
                    ),
                }
            },
            Ok(ServerMessage::Bounced(Bounced { games, slots, tags, data })) => match data {
                BounceData::DeathLink(d) => {
                    let tags = match tags {
                        Some(t) => t,
                        None => Vec::new(),
                    };
                    events.push(Event::DeathLink { games, slots, tags, time: d.time, cause: d.cause, source: d.source })
                },
                BounceData::Generic(data) => events.push(Event::Bounce { games, slots, tags, data }),
            },
            Ok(ServerMessage::InvalidPacket(p)) => events.push(Event::Error(Error::InvalidPacket(p.text))),
            Ok(ServerMessage::Retrieved(Retrieved { keys })) => match self.gets.pop_front() {
                Some(pending) => {
                    complete(pending.sender, Ok(keys));
                    assert(get_ids(self.gets@) =~= get_ids(old(self).gets@).drop_first());
                },
                None => events.push(
                    Event::Error(Error::ProtocolError(ProtocolError::ResponseWithoutRequest(String::from_str("Get")))),
                ),
            },
            Ok(ServerMessage::SetReply(SetReply { key, value, original_value, slot })) => {
                match self.player_or_err(self.player_key.0, slot) {
                    Ok(player) => events.push(Event::KeyChanged { key, old_value: original_value, new_value: value, player }),
                    Err(e) => events.push(Event::Error(e)),
                }
            },
            Ok(m) => {
                let tag = String::from_str(m.message_type());
                events.push(Event::Error(Error::ProtocolError(ProtocolError::ResponseWithoutRequest(tag))));
            },
        }
        proof {
            if events@.len() == n0 + 1 {
                assert(events@.skip(n0 as int) =~= seq![events@.last()]);
            } else {
                assert(events@.skip(n0 as int) =~= Seq::<Event>::empty());
            }
        }
    }

    /// Handles every message handed over so far, in order, and returns the
    /// events they produced. A fatal error stops the handling: it is the last
    /// event, and the messages after it stay unhandled.
    pub fn update(&mut self) -> (r: Vec<Event>)
        requires
            old(self).wf(),
        ensures
            final(self).wf(),
            client_updated(*old(self), *final(self), r@),
            final(self).inbox@.len() == 0 || (r@.len() > 0 && (r@.last() matches Event::Error(e) && fatal(e))),
            forall|id: i64| local_checked(old(self).local_locations@, id) ==> local_checked(final(self).local_locations@, id),
            (forall|i: int| 0 <= i < old(self).inbox@.len() ==> recoverable_input(#[trigger] old(self).inbox@[i]))
                ==> final(self).inbox@.len() == 0 && no_fatal(r@),
    {
        let mut events: Vec<Event> = Vec::new();
        let ghost all = old(self).inbox@;
        let ghost calm = forall|i: int| 0 <= i < all.len() ==> recoverable_input(#[trigger] all[i]);
        let ghost mut pre: Seq<Client> = seq![*old(self)];
        let ghost mut mid: Seq<Client> = Seq::empty();
        let ghost mut outs: Seq<Seq<Event>> = Seq::empty();
        while self.inbox.len() > 0
            invariant
                self.wf(),
                forall|id: i64| local_checked(old(self).local_locations@, id) ==> local_checked(self.local_locations@, id),
                all == old(self).inbox@,
                calm == (forall|i: int| 0 <= i < all.len() ==> recoverable_input(#[trigger] all[i])),
                calm ==> no_fatal(events@),
                calm ==> forall|i: int| 0 <= i < self.inbox@.len() ==> recoverable_input(#[trigger] self.inbox@[i]),
                run_so_far(*old(self), pre, mid, outs),
                pre.last() == *self,
                self.inbox@ == all.skip(outs.len() as int),
                forall|i: int| 0 <= i < outs.len() ==> !fatal_input(#[trigger] all[i]),
                events@ == joined(outs),
            decreases self.inbox@.len(),
        {
            let ghost before = self.inbox@;
            let ghost n = outs.len() as int;
            let input = self.inbox.pop_front().unwrap();
            let ghost m = *self;
            proof {
                assert(before[0] == all[n]);
                assert(self.inbox@ =~= all.skip(n + 1));
                if calm {
                    assert(recoverable_input(before[0]));
                    assert forall|i: int| 0 <= i < self.inbox@.len() implies recoverable_input(#[trigger] self.inbox@[i]) by {
                        assert(self.inbox@[i] == before[i + 1]);
                    }
                }
            }
            let stop = match &input {
                Err(e) => e.is_fatal(),
                Ok(_) => false,
            };
            assert(stop == fatal_input(input));
            assert(calm ==> !stop) by {
                if calm {
                    assert(recoverable_input(input));
                }
            }
            let ghost start = events@;
            self.handle(input, &mut events);
            proof {
                let out = events@.skip(start.len() as int);
                assert(events@.subrange(0, start.len() as int) =~= start);
                assert(events@ =~= events@.subrange(0, start.len() as int) + out);
                assert(events@ =~= start + out);
                assert(outs.push(out).drop_last() =~= outs);
                let pre2 = pre.push(*self);
                let mid2 = mid.push(m);
                let outs2 = outs.push(out);
                assert forall|i: int| 0 <= i < outs2.len() implies step_ok(*old(self), pre2, mid2, outs2, i) by {
                    if i < n {
                        assert(step_ok(*old(self), pre, mid, outs, i));
                        assert(pre2[i] == pre[i] && pre2[i + 1] == pre[i + 1] && mid2[i] == mid[i] && outs2[i] == outs[i]);
                    } else {
                        assert(pre2[i] == pre.last());
                    }
                }
                pre = pre2;
                mid = mid2;
                outs = outs2;
            }
            if stop {
                proof {
                    assert(update_run(*old(self), pre, mid, outs, n + 1));
                }
                return events;
            }
        }
        proof {
            assert(outs.len() == all.len());
            assert(update_run(*old(self), pre, mid, outs, outs.len() as int));
        }
        events
    }

    /// The groups of `team`, with their members resolved on that team, or
    /// `None` when there is no such team. Members without a player on that
    /// team are left out.
    pub fn groups(&self, team: u32) -> (r: Option<Vec<Group>>)
        ensures
            r is None <==> team > self.teams,
            r matches Some(gs) ==> gs.len() == self.groups.len() && forall|g: int| 0 <= g < gs.len() ==> {
                &&& (#[trigger] gs[g]).name@ == self.groups[g].name@
                &&& gs[g].game@ == self.groups[g].game@
                &&& forall|m: int| 0 <= m < gs[g].members.len() ==> (#[trigger] gs[g].members[m]).team == team
                    && self.groups[g].group_members@.contains(gs[g].members[m].slot)
            },
    {
        if team > self.teams {
            return None;
        }
        let mut out: Vec<Group> = Vec::new();
        let mut g: usize = 0;
        while g < self.groups.len()
            invariant
                g <= self.groups.len(),
                out.len() == g,
                forall|a: int| 0 <= a < g ==> {
                    &&& (#[trigger] out[a]).name@ == self.groups[a].name@
                    &&& out[a].game@ == self.groups[a].game@
                    &&& forall|m: int| 0 <= m < out[a].members.len() ==> (#[trigger] out[a].members[m]).team == team
                        && self.groups[a].group_members@.contains(out[a].members[m].slot)
                },
            decreases self.groups.len() - g,
        {
            let network = &self.groups[g];
            let mut members: Vec<Player> = Vec::new();
            let mut m: usize = 0;
            while m < network.group_members.len()
                invariant
                    m <= network.group_members.len(),
                    forall|q: int| 0 <= q < members.len() ==> (#[trigger] members[q]).team == team
                        && network.group_members@.contains(members[q].slot),
                decreases network.group_members.len() - m,
            {
                let slot = network.group_members[m];
                if let Some(p) = self.player(team, slot) {
                    assert(network.group_members@[m as int] == slot);
                    members.push(p.clone());
                }
                m = m + 1;
            }
            out.push(Group { name: network.name.clone(), game: network.game.clone(), members });
            g = g + 1;
        }
        Some(out)
    }

    /// The groups of the connected player's team, with every member.
    pub fn teammate_groups(&self) -> (r: Vec<Group>)
        requires
            self.wf(),
        ensures
            r.len() == self.groups.len(),
            forall|g: int| 0 <= g < r.len() ==> {
                &&& (#[trigger] r[g]).name@ == self.groups[g].name@
                &&& r[g].game@ == self.groups[g].game@
                &&& r[g].members.len() == self.groups[g].group_members.len()
                &&& forall|m: int| 0 <= m < r[g].members.len() ==> (#[trigger] r[g].members[m]).team == self.player_key.0
                    && r[g].members[m].slot == self.groups[g].group_members[m]
            },
    {
        let team = self.player_key.0;
        let mut out: Vec<Group> = Vec::new();
        let mut g: usize = 0;
        while g < self.groups.len()
            invariant
                self.wf(),
                team == self.player_key.0,
                g <= self.groups.len(),
                out.len() == g,
                forall|a: int| 0 <= a < g ==> {
                    &&& (#[trigger] out[a]).name@ == self.groups[a].name@
                    &&& out[a].game@ == self.groups[a].game@
                    &&& out[a].members.len() == self.groups[a].group_members.len()
                    &&& forall|m: int| 0 <= m < out[a].members.len() ==> (#[trigger] out[a].members[m]).team == team
                        && out[a].members[m].slot == self.groups[a].group_members[m]
                },
            decreases self.groups.len() - g,
        {
            let network = &self.groups[g];
            let mut members: Vec<Player> = Vec::new();
            let mut m: usize = 0;
            while m < network.group_members.len()
                invariant
                    self.wf(),
                    team == self.player_key.0,
                    g < self.groups.len(),
                    network == &self.groups[g as int],
                    m <= network.group_members.len(),
                    members.len() == m,
                    forall|q: int| 0 <= q < m ==> (#[trigger] members[q]).team == team
                        && members[q].slot == network.group_members[q],
                decreases network.group_members.len() - m,
            {
                let slot = network.group_members[m];
                members.push(self.assert_player(team, slot).clone());
                m = m + 1;
            }
            out.push(Group { name: network.name.clone(), game: network.game.clone(), members });
            g = g + 1;
        }
        out
    }

    /// The locations of the player's own game that are checked.
    pub fn checked_locations(&self) -> (r: Vec<Location>)
        requires
            self.wf(),
        ensures
            forall|i: int| 0 <= i < r.len() ==> local_checked(self.local_locations@, (#[trigger] r[i]).id),
            forall|id: i64| local_checked(self.local_locations@, id) ==> listed(r@, id),
            forall|a: int, b: int| 0 <= a < b < r.len() ==> (#[trigger] r[a]).id != (#[trigger] r[b]).id,
    {
        let r = self.locations_with(true);
        proof {
            assert forall|id: i64| local_checked(self.local_locations@, id) implies listed(r@, id) by {
                let k = choose|k: int| 0 <= k < self.local_locations@.len() && (#[trigger] self.local_locations@[k]).id == id
                    && self.local_locations@[k].checked;
                assert(self.local_locations[k].checked == true);
            }
            assert forall|i: int| 0 <= i < r.len() implies local_checked(self.local_locations@, (#[trigger] r[i]).id) by {
                assert(local_state(self.local_locations@, r[i].id, true));
            }
        }
        r
    }

    /// The locations of the player's own game that are not checked yet.
    pub fn unchecked_locations(&self) -> (r: Vec<Location>)
        requires
            self.wf(),
        ensures
            forall|i: int| 0 <= i < r.len() ==> local_has(self.local_locations@, (#[trigger] r[i]).id)
                && !local_checked(self.local_locations@, r[i].id),
            forall|id: i64| local_has(self.local_locations@, id) && !local_checked(self.local_locations@, id)
                ==> listed(r@, id),
            forall|a: int, b: int| 0 <= a < b < r.len() ==> (#[trigger] r[a]).id != (#[trigger] r[b]).id,
    {
        let r = self.locations_with(false);
        proof {
            assert forall|id: i64| local_has(self.local_locations@, id) && !local_checked(self.local_locations@, id)
                implies listed(r@, id) by {
                let k = choose|k: int| 0 <= k < self.local_locations@.len() && (#[trigger] self.local_locations@[k]).id == id;
                assert(self.local_locations[k].checked == false);
            }
            assert forall|i: int| 0 <= i < r.len() implies local_has(self.local_locations@, (#[trigger] r[i]).id)
                && !local_checked(self.local_locations@, r[i].id) by {
                assert(local_state(self.local_locations@, r[i].id, false));
                let k = choose|k: int| 0 <= k < self.local_locations@.len() && (#[trigger] self.local_locations@[k]).id == r[i].id
                    && self.local_locations@[k].checked == false;
                if local_checked(self.local_locations@, r[i].id) {
                    let q = choose|q: int| 0 <= q < self.local_locations@.len() && (#[trigger] self.local_locations@[q]).id == r[i].id
                        && self.local_locations@[q].checked;
                    assert(self.local_locations@[q].id == self.local_locations@[k].id);
                }
            }
        }
        r
    }

    /// The local locations whose checked state is `checked`.
    fn locations_with(&self, checked: bool) -> (r: Vec<Location>)
        requires
            self.wf(),
        ensures
            forall|i: int| 0 <= i < r.len() ==> local_state(self.local_locations@, (#[trigger] r[i]).id, checked),
            forall|k: int| 0 <= k < self.local_locations.len() && (#[trigger] self.local_locations[k]).checked == checked
                ==> listed(r@, self.local_locations[k].id),
            forall|a: int, b: int| 0 <= a < b < r.len() ==> (#[trigger] r[a]).id != (#[trigger] r[b]).id,
    {
        let game = self.this_game();
        let mut out: Vec<Location> = Vec::new();
        let mut j: usize = 0;
        while j < self.local_locations.len()
            invariant
                self.wf(),
                *game == self.this_game_spec(),
                j <= self.local_locations.len(),
                forall|i: int| 0 <= i < out.len() ==> local_state(self.local_locations@, (#[trigger] out[i]).id, checked),
                forall|k: int| 0 <= k < j && (#[trigger] self.local_locations[k]).checked == checked
                    ==> listed(out@, self.local_locations[k].id),
                forall|i: int| 0 <= i < out.len() ==> seen_before(self.local_locations@, (#[trigger] out[i]).id, j as int),
                forall|a: int, b: int| 0 <= a < b < out.len() ==> (#[trigger] out[a]).id != (#[trigger] out[b]).id,
            decreases self.local_locations.len() - j,
        {
            let entry = self.local_locations[j];
            if entry.checked == checked {
                let location = game.assert_location(entry.id);
                let ghost before = out@;
                out.push(location);
                proof {
                    assert(out@[before.len() as int].id == entry.id);
                    assert(local_state(self.local_locations@, entry.id, checked)) by {
                        assert(self.local_locations@[j as int] == entry);
                    }
                    assert forall|k: int| 0 <= k < j + 1 && (#[trigger] self.local_locations[k]).checked == checked
                        implies listed(out@, self.local_locations[k].id) by {
                        if k < j {
                            let i = choose|i: int| 0 <= i < before.len() && before[i].id == self.local_locations[k].id;
                            assert(out@[i] == before[i]);
                        } else {
                            assert(out@[before.len() as int].id == self.local_locations[k].id);
                        }
                    }
                    assert forall|i: int| 0 <= i < out.len() implies local_state(self.local_locations@, (#[trigger] out[i]).id, checked) by {
                        if i < before.len() {
                            assert(out@[i] == before[i]);
                        }
                    }
                    assert forall|a: int, b: int| 0 <= a < b < out.len() implies (#[trigger] out[a]).id != (#[trigger] out[b]).id by {
                        assert(out@[a] == before[a]);
                        if b < before.len() {
                            assert(out@[b] == before[b]);
                        } else {
                            assert(seen_before(self.local_locations@, before[a].id, j as int));
                            let q = choose|q: int| 0 <= q < j && (#[trigger] self.local_locations@[q]).id == before[a].id;
                            assert(self.local_locations@[j as int] == entry);
                            if before[a].id == out@[b].id {
                                assert(self.local_locations@[q].id == self.local_locations@[j as int].id);
                                assert(local_unique(self.local_locations@));
                            }
                        }
                    }
                    assert forall|i: int| 0 <= i < out.len() implies seen_before(self.local_locations@, (#[trigger] out[i]).id, j + 1) by {
                        if i < before.len() {
                            assert(out@[i] == before[i]);
                            let q = choose|q: int| 0 <= q < j && (#[trigger] self.local_locations@[q]).id == before[i].id;
                        } else {
                            assert(self.local_locations@[j as int].id == out@[i].id);
                        }
                    }
                }
            }
            j = j + 1;
        }
        out
    }

    /// The slot data that the game's server-side code provided.
    pub fn slot_data(&self) -> (r: &serde_json::Value)
        ensures
            r == &self.slot_data,
    {
        &self.slot_data
    }

    // Session information

    /// The game the connected player plays.
    pub fn this_game(&self) -> (r: &Game)
        requires
            self.wf(),
        ensures
            *r == self.this_game_spec(),
    {
        &self.games[self.game_index]
    }

    /// The version of Archipelago the server runs.
    pub fn server_version(&self) -> (r: Version)
        ensures
            r == self.server_version,
    {
        self.server_version
    }

    /// The version of Archipelago that generated the multiworld.
    pub fn generator_version(&self) -> (r: Version)
        ensures
            r == self.generator_version,
    {
        self.generator_version
    }

    /// The server's tags.
    pub fn server_tags(&self) -> (r: &Vec<String>)
        ensures
            r == &self.server_tags,
    {
        &self.server_tags
    }

    /// Whether the room requires a password.
    pub fn password_required(&self) -> (r: bool)
        ensures
            r == self.password_required,
    {
        self.password_required
    }

    /// When a player may release their remaining items to the others.
    pub fn release_permission(&self) -> (r: Permission)
        ensures
            r == self.permissions.release,
    {
        self.permissions.release
    }

    /// When a player may collect their remaining items.
    pub fn collect_permission(&self) -> (r: Permission)
        ensures
            r == self.permissions.collect,
    {
        self.permissions.collect
    }

    /// When a player may ask which items remain in their world.
    pub fn remaining_permission(&self) -> (r: Permission)
        ensures
            r == self.permissions.remaining,
    {
        self.permissions.remaining
    }

    /// The hint points one hint costs: the hint cost percentage of the
    /// number of local locations, rounded down.
    pub fn points_per_hint(&self) -> (r: u64)
        requires
            self.wf(),
        ensures
            r == hint_price(self.local_locations@.len(), self.hint_cost_percentage),
    {
        let n = self.local_locations.len() as u128;
        let c = self.hint_cost_percentage as u128;
        assert(n * c / 100 <= n) by (nonlinear_arith)
            requires
                c <= 100,
                n >= 0,
        ;
        assert(n * c <= u64::MAX as u128 * 100) by (nonlinear_arith)
            requires
                c <= 100,
                n <= u64::MAX,
        ;
        (n * c / 100) as u64
    }

    /// The hint points granted for each checked location.
    pub fn hint_points_per_check(&self) -> (r: u64)
        ensures
            r == self.hint_points_per_check,
    {
        self.hint_points_per_check
    }

    /// The hint points the player has.
    pub fn hint_points(&self) -> (r: u64)
        ensures
            r == self.hint_points,
    {
        self.hint_points
    }

    /// The name of the generated multiworld, the same in every room that
    /// hosts it.
    pub fn seed_name(&self) -> (r: &str)
        ensures
            r@ == self.seed_name@,
    {
        self.seed_name.as_str()
    }

    /// The games of the multiworld.
    pub fn games(&self) -> (r: &Vec<Game>)
        ensures
            r == &self.games,
    {
        &self.games
    }

    /// The game named `name`, which may be the shared "Archipelago" game.
    pub fn game(&self, name: &String) -> (r: Option<&Game>)
        ensures
            r is Some <==> (exists|k: int| 0 <= k < self.games.len() && (#[trigger] self.games[k]).name@ == name@)
                || self.archipelago.name@ == name@,
            r matches Some(g) ==> g.name@ == name@,
            r matches Some(g) ==> (exists|k: int|
                0 <= k < self.games.len() && *g == self.games[k]) || *g == self.archipelago,
            r matches Some(g) ==> *g == game_for(*self, name@),
    {
        let mut j: usize = 0;
        while j < self.games.len()
            invariant
                j <= self.games.len(),
                forall|i: int| 0 <= i < j ==> (#[trigger] self.games[i]).name@ != name@,
            decreases self.games.len() - j,
        {
            if self.games[j].name == *name {
                proof {
                    assert(first_game(self.games@, name@, j as int));
                    lemma_first_game_unique(self.games@, name@, j as int);
                }
                return Some(&self.games[j]);
            }
            j = j + 1;
        }
        proof {
            if exists|k: int| first_game(self.games@, name@, k) {
                let k = choose|k: int| first_game(self.games@, name@, k);
                assert(self.games[k].name@ != name@);
            }
        }
        if self.archipelago.name == *name {
            Some(&self.archipelago)
        } else {
            None
        }
    }

    /// The game named `name`, or a protocol error when the multiworld has no
    /// such game.
    pub fn game_or_err(&self, name: &String) -> (r: Result<&Game, Error>)
        ensures
            r is Ok <==> (exists|k: int| 0 <= k < self.games.len() && (#[trigger] self.games[k]).name@ == name@)
                || self.archipelago.name@ == name@,
            r matches Ok(g) ==> g.name@ == name@,
            r matches Err(e) ==> (e matches Error::ProtocolError(ProtocolError::MissingGameData(n)) && n@ == name@),
    {
        match self.game(name) {
            Some(g) => Ok(g),
            None => Err(Error::ProtocolError(ProtocolError::MissingGameData(name.clone()))),
        }
    }

    /// The game named `name`, which must be part of the multiworld or be the
    /// shared "Archipelago" game.
    pub fn assert_game(&self, name: &String) -> (r: &Game)
        requires
            (exists|k: int| 0 <= k < self.games.len() && (#[trigger] self.games[k]).name@ == name@)
                || self.archipelago.name@ == name@,
        ensures
            r.name@ == name@,
    {
        self.game(name).unwrap()
    }

    /// The position of the player with this team and slot.
    fn player_index(&self, team: u32, slot: u32) -> (r: Option<usize>)
        ensures
            r matches Some(k) ==> k < self.players.len() && self.players[k as int].team == team
                && self.players[k as int].slot == slot,
            r is None ==> !has_player(self.players@, team, slot),
    {
        find_player(&self.players, team, slot)
    }

    /// The connected player.
    pub fn this_player(&self) -> (r: &Player)
        requires
            self.wf(),
        ensures
            r.team == self.player_key.0,
            r.slot == self.player_key.1,
            exists|k: int| 0 <= k < self.players.len() && *r == self.players[k],
            *r == player_for(*self, self.player_key.0, self.player_key.1),
    {
        let k = self.player_index(self.player_key.0, self.player_key.1).unwrap();
        proof {
            lemma_player_for(*self, self.player_key.0, self.player_key.1, k as int);
        }
        &self.players[k]
    }

    /// All players of the multiworld.
    pub fn players(&self) -> (r: &Vec<Player>)
        ensures
            r == &self.players,
    {
        &self.players
    }

    /// The player on `team` playing `slot`, if there is one.
    pub fn player(&self, team: u32, slot: u32) -> (r: Option<&Player>)
        ensures
            r is Some <==> has_player(self.players@, team, slot),
            r matches Some(p) ==> p.team == team && p.slot == slot
                && exists|k: int| 0 <= k < self.players.len() && *p == self.players[k],
    {
        match self.player_index(team, slot) {
            Some(k) => Some(&self.players[k]),
            None => None,
        }
    }

    /// The player on `team` playing `slot`, or a protocol error.
    pub fn player_or_err(&self, team: u32, slot: u32) -> (r: Result<Player, Error>)
        ensures
            r is Ok <==> has_player(self.players@, team, slot),
            r matches Ok(p) ==> p.team == team && p.slot == slot
                && exists|k: int| 0 <= k < self.players.len() && p == self.players[k],
            r matches Ok(p) ==> (players_unique(self.players@) ==> p == player_for(*self, team, slot)),
            r matches Err(e) ==> e matches Error::ProtocolError(ProtocolError::MissingPlayer { team: t, slot: s })
                && t == team && s == slot,
    {
        match self.player_index(team, slot) {
            Some(k) => {
                proof {
                    if players_unique(self.players@) {
                        lemma_player_for(*self, team, slot, k as int);
                    }
                }
                Ok(self.players[k].clone())
            },
            None => Err(Error::ProtocolError(ProtocolError::MissingPlayer { team, slot })),
        }
    }

    /// The player on `team` playing `slot`, who must exist.
    pub fn assert_player(&self, team: u32, slot: u32) -> (r: &Player)
        requires
            has_player(self.players@, team, slot),
        ensures
            r.team == team && r.slot == slot,
            exists|k: int| 0 <= k < self.players.len() && *r == self.players[k],
    {
        let k = self.player_index(team, slot).unwrap();
        &self.players[k]
    }

    /// The player playing `slot` on the connected player's team, if any.
    pub fn teammate(&self, slot: u32) -> (r: Option<&Player>)
        ensures
            r is Some <==> has_player(self.players@, self.player_key.0, slot),
            r matches Some(p) ==> p.team == self.player_key.0 && p.slot == slot
                && exists|k: int| 0 <= k < self.players.len() && *p == self.players[k],
    {
        self.player(self.player_key.0, slot)
    }

    /// The player playing `slot` on the connected player's team, who must
    /// exist.
    pub fn assert_teammate(&self, slot: u32) -> (r: &Player)
        requires
            has_player(self.players@, self.player_key.0, slot),
        ensures
            r.team == self.player_key.0 && r.slot == slot,
            exists|k: int| 0 <= k < self.players.len() && *r == self.players[k],
    {
        self.assert_player(self.player_key.0, slot)
    }

    /// Whether the local location `id` has been checked, by this player or by
    /// another in the same slot. The location must be one of the player's
    /// own game.
    pub fn is_local_location_checked(&self, id: i64) -> (r: bool)
        requires
            self.wf(),
            local_has(self.local_locations@, id),
        ensures
            r == local_checked(self.local_locations@, id),
    {
        let mut j: usize = 0;
        while j < self.local_locations.len()
            invariant
                self.wf(),
                j <= self.local_locations.len(),
                forall|i: int| 0 <= i < j ==> (#[trigger] self.local_locations[i]).id != id,
            decreases self.local_locations.len() - j,
        {
            if self.local_locations[j].id == id {
                let r = self.local_locations[j].checked;
                proof {
                    if !r && local_checked(self.local_locations@, id) {
                        let k = choose|k: int| 0 <= k < self.local_locations@.len()
                            && (#[trigger] self.local_locations@[k]).id == id && self.local_locations@[k].checked;
                        assert(self.local_locations@[k].id == self.local_locations@[j as int].id);
                        assert(local_unique(self.local_locations@));
                        assert(k == j);
                    }
                }
                return r;
            }
            j = j + 1;
        }
        proof {
            let k = choose|k: int| 0 <= k < self.local_locations.len() && (#[trigger] self.local_locations[k]).id == id;
            assert(self.local_locations[k].id != id);
        }
        false
    }
}

/// The tag that marks a bounce as a death link.
pub open spec fn death_link_tag() -> Seq<char> {
    "DeathLink"@
}

/// Whether some tag of `tags` is "DeathLink".
pub open spec fn has_death_link_tag(tags: Seq<String>) -> bool {
    exists|k: int| 0 <= k < tags.len() && (#[trigger] tags[k])@ == death_link_tag()
}

/// Whether some tag of `tags` is "DeathLink".
pub fn contains_death_link_tag(tags: &Vec<String>) -> (r: bool)
    ensures
        r == has_death_link_tag(tags@),
{
    let tag = String::from_str("DeathLink");
    let mut j: usize = 0;
    while j < tags.len()
        invariant
            j <= tags.len(),
            tag@ == death_link_tag(),
            forall|i: int| 0 <= i < j ==> (#[trigger] tags[i])@ != death_link_tag(),
        decreases tags.len() - j,
    {
        if tags[j] == tag {
            return true;
        }
        j = j + 1;
    }
    false
}

/// `tags`, or no tags, with "DeathLink" added when it is missing.
fn with_death_link_tag(tags: Option<Vec<String>>) -> (r: Vec<String>)
    ensures
        has_death_link_tag(r@),
        forall|k: int| 0 <= k < r.len() ==> (#[trigger] r[k])@ == death_link_tag() || (tags matches Some(t)
            && exists|i: int| 0 <= i < t.len() && t[i] == r[k]),
{
    let mut tags = match tags {
        Some(t) => t,
        None => Vec::new(),
    };
    let ghost given = tags@;
    if !contains_death_link_tag(&tags) {
        tags.push(String::from_str("DeathLink"));
        proof {
            let n = given.len() as int;
            assert(tags@[n]@ == death_link_tag());
            assert forall|k: int| 0 <= k < tags.len() implies (#[trigger] tags@[k])@ == death_link_tag() || exists|i: int|
                0 <= i < given.len() && given[i] == tags@[k] by {
                if k < n {
                    assert(given[k] == tags@[k]);
                }
            }
        }
    } else {
        proof {
            assert forall|k: int| 0 <= k < tags.len() implies (#[trigger] tags@[k])@ == death_link_tag() || exists|i: int|
                0 <= i < given.len() && given[i] == tags@[k] by {
                assert(given[k] == tags@[k]);
            }
        }
    }
    tags
}

/// `f` alone when `present`, otherwise nothing.
pub open spec fn optional(present: bool, f: UpdatedField) -> Seq<UpdatedField> {
    if present {
        seq![f]
    } else {
        Seq::empty()
    }
}

/// The first fields that a room update reports, each holding what it
/// replaced: the server's tags, the permissions, the hint economy (the hint
/// price and the points per check) and the hint points, for those present.
pub open spec fn head_fields(before: Client, u: RoomUpdate) -> Seq<UpdatedField> {
    optional(u.tags is Some, UpdatedField::ServerTags(before.server_tags)) + optional(
        u.permissions is Some,
        UpdatedField::Permissions {
            release: before.permissions.release,
            collect: before.permissions.collect,
            remaining: before.permissions.remaining,
        },
    ) + optional(
        u.hint_cost is Some || u.location_check_points is Some,
        UpdatedField::HintEconomy {
            points_per_hint: hint_price(before.local_locations@.len(), before.hint_cost_percentage) as u64,
            hint_points_per_check: before.hint_points_per_check,
        },
    ) + optional(u.hint_points is Some, UpdatedField::HintPoints(before.hint_points))
}

/// The number of fields that a room update reports: one for each field
/// present, with the hint cost and the points per check counted together.
pub open spec fn reported_len(u: RoomUpdate) -> int {
    (if u.tags is Some { 1int } else { 0 }) + (if u.permissions is Some { 1int } else { 0 }) + (if u.hint_cost is Some
        || u.location_check_points is Some {
        1int
    } else {
        0
    }) + (if u.hint_points is Some { 1int } else { 0 }) + (if u.players is Some { 1int } else { 0 }) + (
    if u.checked_locations is Some {
        1int
    } else {
        0
    })
}

/// Whether handing `input` to a session cannot end it: a message, or an
/// error that is not fatal.
pub open spec fn recoverable_input(input: Result<ServerMessage, Error>) -> bool {
    match input {
        Ok(_) => true,
        Err(e) => !fatal(e),
    }
}

/// Whether no event of `events` is a fatal error.
pub open spec fn no_fatal(events: Seq<Event>) -> bool {
    forall|k: int| 0 <= k < events.len() ==> !(#[trigger] events[k] matches Event::Error(e) && fatal(e))
}


/// Whether `k` is the first position in `games` of a game named `name`.
pub open spec fn first_game(games: Seq<Game>, name: Seq<char>, k: int) -> bool {
    &&& 0 <= k < games.len()
    &&& games[k].name@ == name
    &&& forall|j: int| 0 <= j < k ==> (#[trigger] games[j]).name@ != name
}

/// The game of the session named `name`: the first of its games with that
/// name, or else the shared "Archipelago" game.
pub open spec fn game_for(c: Client, name: Seq<char>) -> Game {
    if exists|k: int| first_game(c.games@, name, k) {
        c.games@[choose|k: int| first_game(c.games@, name, k)]
    } else {
        c.archipelago
    }
}

/// The player of the session on `team` playing `slot`.
pub open spec fn player_for(c: Client, team: u32, slot: u32) -> Player {
    c.players@[choose|k: int| 0 <= k < c.players@.len() && (#[trigger] c.players@[k]).team == team && c.players@[k].slot == slot]
}

proof fn lemma_first_game_unique(games: Seq<Game>, name: Seq<char>, k: int)
    requires
        first_game(games, name, k),
    ensures
        (choose|q: int| first_game(games, name, q)) == k,
{
    let q = choose|q: int| first_game(games, name, q);
    if q < k {
        assert(games[q].name@ != name);
    } else if q > k {
        assert(games[k].name@ != name);
    }
}

proof fn lemma_player_for(c: Client, team: u32, slot: u32, k: int)
    requires
        players_unique(c.players@),
        0 <= k < c.players@.len(),
        c.players@[k].team == team,
        c.players@[k].slot == slot,
    ensures
        player_for(c, team, slot) == c.players@[k],
{
    let q = choose|q: int| 0 <= q < c.players@.len() && (#[trigger] c.players@[q]).team == team && c.players@[q].slot == slot;
    assert(c.players@[q].team == c.players@[k].team);
}


/// Whether a received item resolves: a teammate sent it, from a location of
/// that teammate's game, and the item is one of the player's own game.
pub open spec fn received_item_ok(c: Client, n: NetworkItem) -> bool {
    &&& has_player(c.players@, c.player_key.0, n.player)
    &&& resolvable(n, game_for(c, player_for(c, c.player_key.0, n.player).game@), c.this_game_spec())
}

/// What a received item resolves to.
pub open spec fn received_one(c: Client, n: NetworkItem, li: LocatedItem) -> bool {
    let sender = player_for(c, c.player_key.0, n.player);
    hydrated(li, n, sender, player_for(c, c.player_key.0, c.player_key.1), game_for(c, sender.game@), c.this_game_spec())
}

/// Whether every received item resolves.
pub open spec fn received_ok(c: Client, items: Seq<NetworkItem>) -> bool {
    forall|i: int| 0 <= i < items.len() ==> received_item_ok(c, #[trigger] items[i])
}

/// Whether `v` is what the received items resolve to, in order.
pub open spec fn received_as(c: Client, items: Seq<NetworkItem>, v: Seq<LocatedItem>) -> bool {
    v.len() == items.len() && forall|i: int| 0 <= i < v.len() ==> received_one(c, items[i], #[trigger] v[i])
}

/// Whether a scouted item resolves: it stands at a location of the player's
/// own game and is an item of the game of the teammate it is for.
pub open spec fn scouted_item_ok(c: Client, n: NetworkItem) -> bool {
    &&& has_player(c.players@, c.player_key.0, n.player)
    &&& resolvable(n, c.this_game_spec(), game_for(c, player_for(c, c.player_key.0, n.player).game@))
}

/// What a scouted item resolves to.
pub open spec fn scouted_one(c: Client, n: NetworkItem, li: LocatedItem) -> bool {
    let receiver = player_for(c, c.player_key.0, n.player);
    hydrated(li, n, player_for(c, c.player_key.0, c.player_key.1), receiver, c.this_game_spec(), game_for(c, receiver.game@))
}

/// Whether every scouted item resolves.
pub open spec fn scouted_ok(c: Client, items: Seq<NetworkItem>) -> bool {
    forall|i: int| 0 <= i < items.len() ==> scouted_item_ok(c, #[trigger] items[i])
}

/// Whether `v` is what the scouted items resolve to, in order.
pub open spec fn scouted_as(c: Client, items: Seq<NetworkItem>, v: Seq<LocatedItem>) -> bool {
    v.len() == items.len() && forall|i: int| 0 <= i < v.len() ==> scouted_one(c, items[i], #[trigger] v[i])
}


/// Whether `id` is the first ID of `ids` that is not a location of `game`.
pub open spec fn first_unknown(game: Game, ids: Seq<i64>, id: i64) -> bool {
    exists|i: int| {
        &&& 0 <= i < ids.len()
        &&& ids[i] == id
        &&& !has_location_id(game.locations@, id)
        &&& forall|j: int| 0 <= j < i ==> has_location_id(game.locations@, #[trigger] ids[j])
    }
}


/// The error a room update that cannot be applied gives: a hint cost above
/// 100 first, then a checked location that the player's game lacks, then a
/// player that the session lacks.
pub open spec fn room_update_error(before: Client, u: RoomUpdate, e: Error) -> bool {
    if u.hint_cost matches Some(c) && c > 100 {
        e == Error::ProtocolError(ProtocolError::InvalidHintCost(u.hint_cost->Some_0))
    } else if u.checked_locations matches Some(ids) && exists|i: int|
        0 <= i < ids.len() && !local_has(before.local_locations@, #[trigger] ids[i]) {
        e matches Error::ProtocolError(ProtocolError::MissingLocation { id, game }) && u.checked_locations->Some_0@.contains(id)
            && !local_has(before.local_locations@, id) && game@ == before.this_game_spec().name@
    } else {
        e matches Error::ProtocolError(ProtocolError::MissingPlayer { team, slot }) && (u.players matches Some(ps)
            && exists|i: int| 0 <= i < ps.len() && (#[trigger] ps[i]).team == team && ps[i].slot == slot)
            && !has_player(before.players@, team, slot)
    }
}

/// What a room update does to the session `before`, giving `after` and the
/// result `r`. Every field is checked before any is applied: on an error the
/// session is unchanged. Otherwise each field present replaces the stored
/// one, listed players take the listed alias, listed locations become
/// checked, and the event reports what each field replaced, with the
/// locations that were not checked before, each once.
pub open spec fn room_updated(before: Client, update: RoomUpdate, after: Client, r: Result<Event, Error>) -> bool {
    &&& r is Ok <==> before.room_update_valid(update)
    &&& r matches Err(e) ==> after == before && !fatal(e) && room_update_error(before, update, e)
    &&& r is Ok ==> {
        &&& r matches Ok(Event::Updated(fields)) && fields@.len() == reported_len(update)
            && fields@.subrange(0, head_fields(before, update).len() as int) == head_fields(before, update)
            && (update.players is Some ==> (fields@[head_fields(before, update).len() as int] matches UpdatedField::Players(rs)
                && forall|k: int| 0 <= k < rs.len() ==> has_player(before.players@, (#[trigger] rs[k]).team, rs[k].slot)))
            && (update.checked_locations matches Some(ids) ==> (fields@.last() matches UpdatedField::CheckedLocations(l)
                && (forall|id: i64| listed(l@, id) <==> ids@.contains(id) && !local_checked(before.local_locations@, id))
                && forall|a: int, b: int| 0 <= a < b < l.len() ==> (#[trigger] l[a]).id != (#[trigger] l[b]).id))
        &&& after == (Client {
            server_tags: after.server_tags,
            permissions: after.permissions,
            hint_cost_percentage: after.hint_cost_percentage,
            hint_points_per_check: after.hint_points_per_check,
            hint_points: after.hint_points,
            players: after.players,
            local_locations: after.local_locations,
            ..before
        })
        &&& after.server_tags == (match update.tags {
            Some(t) => t,
            None => before.server_tags,
        })
        &&& after.permissions == (match update.permissions {
            Some(p) => p,
            None => before.permissions,
        })
        &&& after.hint_cost_percentage == (match update.hint_cost {
            Some(c) => c,
            None => before.hint_cost_percentage,
        })
        &&& after.hint_points_per_check == (match update.location_check_points {
            Some(c) => c,
            None => before.hint_points_per_check,
        })
        &&& after.hint_points == (match update.hint_points {
            Some(c) => c,
            None => before.hint_points,
        })
        &&& after.players.len() == before.players.len()
        &&& forall|k: int| 0 <= k < after.players.len() ==> {
            &&& (#[trigger] after.players[k]).team == before.players[k].team
            &&& after.players[k].slot == before.players[k].slot
            &&& after.players[k].name == before.players[k].name
            &&& after.players[k].game == before.players[k].game
            &&& (after.players[k].alias == before.players[k].alias || (update.players matches Some(ps)
                && exists|i: int| 0 <= i < ps.len() && (#[trigger] ps[i]).team == after.players[k].team
                && ps[i].slot == after.players[k].slot && ps[i].alias == after.players[k].alias))
        }
        &&& update.players matches Some(ps) ==> forall|i: int| 0 <= i < ps.len() && last_within(ps@, i, ps.len() as int)
            ==> (#[trigger] player_for(after, ps[i].team, ps[i].slot)).alias@ == ps[i].alias@
        &&& forall|id: i64| local_has(after.local_locations@, id) == local_has(before.local_locations@, id)
        &&& forall|id: i64| local_checked(before.local_locations@, id) ==> local_checked(after.local_locations@, id)
        &&& match update.checked_locations {
            Some(ids) => {
                &&& forall|i: int| 0 <= i < ids.len() ==> local_checked(after.local_locations@, #[trigger] ids[i])
                &&& forall|id: i64| !ids@.contains(id)
                    ==> local_checked(after.local_locations@, id) == local_checked(before.local_locations@, id)
            },
            None => after.local_locations == before.local_locations,
        }
    }
}


proof fn lemma_prefix_grows(s: Seq<i64>, j: int)
    requires
        0 <= j < s.len(),
    ensures
        forall|x: i64| #![trigger s.subrange(0, j + 1).contains(x)]
            s.subrange(0, j + 1).contains(x) <==> (s.subrange(0, j).contains(x) || x == s[j]),
{
    assert forall|x: i64| #![trigger s.subrange(0, j + 1).contains(x)]
        s.subrange(0, j + 1).contains(x) <==> (s.subrange(0, j).contains(x) || x == s[j]) by {
        if s.subrange(0, j + 1).contains(x) {
            let q = choose|q: int| 0 <= q < j + 1 && #[trigger] s.subrange(0, j + 1)[q] == x;
            if q < j {
                assert(s.subrange(0, j)[q] == x);
            }
        }
        if s.subrange(0, j).contains(x) {
            let q = choose|q: int| 0 <= q < j && #[trigger] s.subrange(0, j)[q] == x;
            assert(s.subrange(0, j + 1)[q] == x);
        }
        if x == s[j] {
            assert(s.subrange(0, j + 1)[j] == x);
        }
    }
}


proof fn lemma_listed_push(s: Seq<Location>, l: Location)
    ensures
        forall|x: i64| listed(s.push(l), x) <==> (listed(s, x) || l.id == x),
{
    assert forall|x: i64| listed(s.push(l), x) <==> (listed(s, x) || l.id == x) by {
        if listed(s.push(l), x) {
            let k = choose|k: int| 0 <= k < s.push(l).len() && (#[trigger] s.push(l)[k]).id == x;
            if k < s.len() {
                assert(s[k] == s.push(l)[k]);
            }
        }
        if listed(s, x) {
            let k = choose|k: int| 0 <= k < s.len() && (#[trigger] s[k]).id == x;
            assert(s.push(l)[k] == s[k]);
        }
        if l.id == x {
            assert(s.push(l)[s.len() as int] == l);
        }
    }
}


/// Whether handing `input` over ends the session: a fatal error.
pub open spec fn fatal_input(input: Result<ServerMessage, Error>) -> bool {
    input matches Err(e) && fatal(e)
}

/// The event that a room update's result gives.
pub open spec fn event_of(r: Result<Event, Error>) -> Event {
    match r {
        Ok(ev) => ev,
        Err(e) => Event::Error(e),
    }
}

/// The room update result that an event reports.
pub open spec fn result_of(ev: Event) -> Result<Event, Error> {
    match ev {
        Event::Error(e) => Err(e),
        _ => Ok(ev),
    }
}

/// The events of `outs`, one list after another.
pub open spec fn joined(outs: Seq<Seq<Event>>) -> Seq<Event>
    decreases outs.len(),
{
    if outs.len() == 0 {
        Seq::empty()
    } else {
        joined(outs.drop_last()) + outs.last()
    }
}

/// What handling one server message, or one error from the transport, does
/// to the session `before`: it becomes `after`, and `out` are the events.
pub open spec fn handled(before: Client, input: Result<ServerMessage, Error>, after: Client, out: Seq<Event>) -> bool {
    &&& after.outbox == before.outbox
    &&& after.inbox == before.inbox
    &&& match input {
        Err(e) => after == before && out == seq![Event::Error(e)],
        Ok(ServerMessage::LocationInfo(_)) => {
            &&& after == (Client { location_scouts: after.location_scouts, ..before })
            &&& if before.location_scouts@.len() > 0 {
                &&& scout_ids(after.location_scouts@) == scout_ids(before.location_scouts@).drop_first()
                &&& out.len() == 0
            } else {
                &&& after.location_scouts@ == before.location_scouts@
                &&& out.len() == 1
                &&& out[0] matches Event::Error(Error::ProtocolError(ProtocolError::ResponseWithoutRequest(s)))
                    && s@ == "LocationInfo"@
            }
        },
        Ok(ServerMessage::Retrieved(_)) => {
            &&& after == (Client { gets: after.gets, ..before })
            &&& if before.gets@.len() > 0 {
                &&& get_ids(after.gets@) == get_ids(before.gets@).drop_first()
                &&& out.len() == 0
            } else {
                &&& after.gets@ == before.gets@
                &&& out.len() == 1
                &&& out[0] matches Event::Error(Error::ProtocolError(ProtocolError::ResponseWithoutRequest(s)))
                    && s@ == "Get"@
            }
        },
        Ok(ServerMessage::ReceivedItems(m)) => {
            &&& after == before
            &&& out.len() == 1
            &&& if received_ok(before, m.items@) {
                out[0] matches Event::ReceivedItems { index, items } && index == m.index && received_as(before, m.items@, items@)
            } else {
                out[0] matches Event::Error(e) && !fatal(e)
            }
        },
        Ok(ServerMessage::RoomUpdate(u)) => out.len() == 1 && room_updated(before, u, after, result_of(out[0])),
        Ok(ServerMessage::InvalidPacket(p)) => after == before && out == seq![Event::Error(Error::InvalidPacket(p.text))],
        Ok(ServerMessage::Print(p)) => {
            &&& after == before
            &&& out.len() == 1
            &&& out[0] matches Event::Print(q) && q.kind is None && q.parts.len() == 1 && q.parts[0] == RichText::Text(p.text)
        },
        Ok(ServerMessage::Bounced(b)) => {
            &&& after == before
            &&& out.len() == 1
            &&& match b.data {
                BounceData::DeathLink(d) => out[0] matches Event::DeathLink { games: g, slots: sl, tags: t, time, cause, source }
                    && g == b.games && sl == b.slots && time == d.time && cause == d.cause && source == d.source && (match b.tags {
                    Some(bt) => t == bt,
                    None => t@.len() == 0,
                }),
                BounceData::Generic(data) => out[0] == Event::Bounce { games: b.games, slots: b.slots, tags: b.tags, data },
            }
        },
        Ok(ServerMessage::SetReply(m)) => {
            &&& after == before
            &&& out.len() == 1
            &&& if has_player(before.players@, before.player_key.0, m.slot) {
                out[0] matches Event::KeyChanged { key, old_value, new_value, player } && key == m.key
                    && old_value == m.original_value && new_value == m.value
                    && player == player_for(before, before.player_key.0, m.slot)
            } else {
                out[0] matches Event::Error(e) && !fatal(e)
            }
        },
        Ok(ServerMessage::RichPrint(m)) => {
            &&& after == before
            &&& out.len() == 1
            &&& match out[0] {
                Event::Print(p) => p.kind == m.kind && p.parts.len() == m.data.len() && forall|i: int|
                    0 <= i < p.parts.len() ==> before.hydrates_to(m.data[i], Ok(#[trigger] p.parts[i])),
                Event::Error(e) => exists|i: int| 0 <= i < m.data.len() && before.hydrates_to(#[trigger] m.data[i], Err(e)),
                _ => false,
            }
        },
        Ok(m) => {
            &&& after == before
            &&& out.len() == 1
            &&& out[0] matches Event::Error(Error::ProtocolError(ProtocolError::ResponseWithoutRequest(s)))
                && s@ == crate::protocol::message_tag(m)
        },
    }
}

/// Step `i` of handling the inbox of `start`: the state `pre[i]` hands over
/// its first message, becoming `mid[i]`, and handling it gives `pre[i + 1]`
/// and the events `outs[i]`.
pub open spec fn step_ok(start: Client, pre: Seq<Client>, mid: Seq<Client>, outs: Seq<Seq<Event>>, i: int) -> bool {
    &&& mid[i] == (Client { inbox: mid[i].inbox, ..pre[i] })
    &&& mid[i].inbox@ == start.inbox@.skip(i + 1)
    &&& handled(mid[i], start.inbox@[i], pre[i + 1], outs[i])
}

/// Whether `pre`, `mid` and `outs` record the first `outs.len()` steps of
/// handling the inbox of `start`.
pub open spec fn run_so_far(start: Client, pre: Seq<Client>, mid: Seq<Client>, outs: Seq<Seq<Event>>) -> bool {
    &&& outs.len() <= start.inbox@.len()
    &&& pre.len() == outs.len() + 1
    &&& mid.len() == outs.len()
    &&& pre[0] == start
    &&& forall|i: int| 0 <= i < outs.len() ==> step_ok(start, pre, mid, outs, i)
}

/// Whether the first `n` messages of the inbox of `start` were handled, in
/// order, and handling stopped there: the inbox was empty, or the last one
/// handled was a fatal error, the first of them.
pub open spec fn update_run(start: Client, pre: Seq<Client>, mid: Seq<Client>, outs: Seq<Seq<Event>>, n: int) -> bool {
    &&& run_so_far(start, pre, mid, outs)
    &&& outs.len() == n
    &&& forall|i: int| 0 <= i < n - 1 ==> !fatal_input(#[trigger] start.inbox@[i])
    &&& (n == start.inbox@.len() || (n > 0 && fatal_input(start.inbox@[n - 1])))
}

/// Whether updating the session `before` gives `after` and the events
/// `events`: the messages of its inbox are handled in order, up to and
/// including the first fatal error, and the events are theirs, in order.
pub open spec fn client_updated(before: Client, after: Client, events: Seq<Event>) -> bool {
    exists|pre: Seq<Client>, mid: Seq<Client>, outs: Seq<Seq<Event>>, n: int|
        #[trigger] update_run(before, pre, mid, outs, n) && pre[n] == after && events == joined(outs)
}


/// Whether no entry of `ps` after `i` and before `end` names the same team
/// and slot as entry `i`.
pub open spec fn last_within(ps: Seq<NetworkPlayer>, i: int, end: int) -> bool {
    forall|t: int| i < t < end ==> !((#[trigger] ps[t]).team == ps[i].team && ps[t].slot == ps[i].slot)
}

proof fn lemma_player_for_other(c1: Client, c2: Client, k: int, team: u32, slot: u32)
    requires
        players_unique(c1.players@),
        players_unique(c2.players@),
        0 <= k < c1.players@.len(),
        c2.players@.len() == c1.players@.len(),
        forall|q: int| 0 <= q < c1.players@.len() && q != k ==> c2.players@[q] == c1.players@[q],
        c2.players@[k].team == c1.players@[k].team && c2.players@[k].slot == c1.players@[k].slot,
        has_player(c1.players@, team, slot),
        !(c1.players@[k].team == team && c1.players@[k].slot == slot),
    ensures
        player_for(c2, team, slot) == player_for(c1, team, slot),
{
    let q = choose|q: int| 0 <= q < c1.players@.len() && (#[trigger] c1.players@[q]).team == team && c1.players@[q].slot == slot;
    lemma_player_for(c1, team, slot, q);
    assert(c2.players@[q] == c1.players@[q]);
    lemma_player_for(c2, team, slot, q);
}


/// Whether one of the first `j` entries of `local` is for location `id`.
pub open spec fn seen_before(local: Seq<LocalLocation>, id: i64, j: int) -> bool {
    exists|q: int| 0 <= q < j && (#[trigger] local[q]).id == id
}


/// Whether `e` reports a way in which the handshake answers fail to make a
/// session for `game` (see [valid_session]).
pub open spec fn session_error(game: Seq<char>, room_info: RoomInfo, dp: DataPackageObject, c: ConnectedMessage, e: Error) -> bool {
    let info = c.slot_info@;
    match e {
        Error::ProtocolError(ProtocolError::EmptyPlayers) => c.players.len() == 0,
        Error::ProtocolError(ProtocolError::MissingSlotInfo(s)) => {
            ||| exists|i: int, m: int|
                0 <= i < info.len() && is_group(info[i].1) && 0 <= m < info[i].1.group_members.len()
                    && #[trigger] info[i].1.group_members[m] == s && own_slot_game(info, s) is None
            ||| exists|i: int| 0 <= i < c.players.len() && (#[trigger] c.players[i]).slot == s && slot_game(info, s) is None
        },
        Error::ProtocolError(ProtocolError::MissingPlayer { team, slot }) => {
            &&& team == c.team
            &&& !has_network_player(c.players@, team, slot)
            &&& (slot == c.slot || exists|i: int, m: int|
                0 <= i < info.len() && is_group(info[i].1) && 0 <= m < info[i].1.group_members.len()
                    && #[trigger] info[i].1.group_members[m] == slot)
        },
        Error::ProtocolError(ProtocolError::MissingGameData(n)) => {
            &&& !exists|k: int| 0 <= k < dp.games.len() && (#[trigger] dp.games[k]).0@ == n@
            &&& (n@ == game || (n@ != archipelago_name_spec() && exists|i: int|
                0 <= i < c.players.len() && slot_game(info, (#[trigger] c.players[i]).slot) == Some(n@)))
        },
        Error::ProtocolError(ProtocolError::InvalidHintCost(h)) => h == room_info.hint_cost && h > 100,
        Error::ProtocolError(ProtocolError::MissingLocation { id, game: g }) => {
            &&& g@ == game
            &&& (c.missing_locations@.contains(id) || c.checked_locations@.contains(id))
            &&& forall|k: int| first_named(dp.games@, game, k) ==> !data_has_location(dp.games[k].1, id)
        },
        _ => false,
    }
}

} // verus!
