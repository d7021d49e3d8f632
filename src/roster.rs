//! The players of a session, and how the handshake's slot information gives
//! each of them a game.
use vstd::prelude::*;

use crate::error::{Error, ProtocolError};
use crate::game::{archipelago_name_spec, Game};
use crate::player::Player;
use crate::protocol::Connected as ConnectedMessage;
use crate::protocol::{DataPackageObject, GameData, NetworkPlayer, NetworkSlot, RoomInfo, SlotType};

verus! {

/// Whether some player of `players` has this team and slot.
pub open spec fn has_player(players: Seq<Player>, team: u32, slot: u32) -> bool {
    exists|k: int| 0 <= k < players.len() && (#[trigger] players[k]).team == team && players[k].slot == slot
}

/// Whether no two players share a team and slot.
pub open spec fn players_unique(players: Seq<Player>) -> bool {
    forall|i: int, j: int|
        0 <= i < players.len() && 0 <= j < players.len() && (#[trigger] players[i]).team == (#[trigger] players[j]).team
            && players[i].slot == players[j].slot ==> i == j
}

/// The position of the player with this team and slot.
pub(crate) fn find_player(players: &Vec<Player>, team: u32, slot: u32) -> (r: Option<usize>)
    ensures
        r matches Some(k) ==> k < players.len() && players[k as int].team == team && players[k as int].slot == slot,
        r is None ==> !has_player(players@, team, slot),
{
    let mut j: usize = 0;
    while j < players.len()
        invariant
            j <= players.len(),
            forall|i: int| 0 <= i < j ==> !((#[trigger] players[i]).team == team && players[i].slot == slot),
        decreases players.len() - j,
    {
        if players[j].team == team && players[j].slot == slot {
            return Some(j);
        }
        j = j + 1;
    }
    None
}

/// Whether `slot` has slot information of its own.
pub(crate) fn has_own_slot(info: &Vec<(u32, NetworkSlot)>, slot: u32) -> (r: bool)
    ensures
        r == own_slot_game(info@, slot) is Some,
{
    let mut j: usize = 0;
    while j < info.len()
        invariant
            j <= info.len(),
            forall|q: int| 0 <= q < j ==> !owns_slot(#[trigger] info@[q], slot),
        decreases info.len() - j,
    {
        if info[j].1.slot_type != SlotType::Group && info[j].0 == slot {
            proof {
                lemma_own_slot_game(info@, slot, j as int);
            }
            return true;
        }
        j = j + 1;
    }
    proof {
        lemma_own_slot_game(info@, slot, info@.len() as int);
    }
    false
}

/// The position of the first game named `name`.
pub(crate) fn find_game(games: &Vec<Game>, name: &String) -> (r: Option<usize>)
    ensures
        r matches Some(k) ==> k < games.len() && games[k as int].name@ == name@
            && forall|j: int| 0 <= j < k ==> (#[trigger] games[j]).name@ != name@,
        r is None ==> forall|k: int| 0 <= k < games.len() ==> (#[trigger] games[k]).name@ != name@,
{
    let mut j: usize = 0;
    while j < games.len()
        invariant
            j <= games.len(),
            forall|i: int| 0 <= i < j ==> (#[trigger] games[i]).name@ != name@,
        decreases games.len() - j,
    {
        if games[j].name == *name {
            return Some(j);
        }
        j = j + 1;
    }
    None
}

/// Whether the network player `i` of `net` is matched in `players`.
pub open spec fn from_network(net: Seq<NetworkPlayer>, p: Player) -> bool {
    exists|i: int|
        0 <= i < net.len() && (#[trigger] net[i]).team == p.team && net[i].slot == p.slot
            && net[i].alias@ == p.alias@ && net[i].name@ == p.name@
}

/// Builds the players of the session, taking each one's game from its slot
/// information or else from a group it belongs to. A later entry for the
/// same team and slot replaces an earlier one.
pub(crate) fn resolve_players(net: &Vec<NetworkPlayer>, info: &Vec<(u32, NetworkSlot)>) -> (r: Result<Vec<Player>, Error>)
    ensures
        r matches Ok(players) ==> {
            &&& players_unique(players@)
            &&& forall|i: int| 0 <= i < net.len() ==> has_player(players@, (#[trigger] net[i]).team, net[i].slot)
            &&& forall|k: int| 0 <= k < players.len() ==> from_network(net@, #[trigger] players[k])
            &&& forall|k: int| 0 <= k < players.len() ==> slot_game(info@, (#[trigger] players[k]).slot) == Some(players[k].game@)
        },
        r is Err <==> exists|i: int| 0 <= i < net.len() && slot_game(info@, (#[trigger] net[i]).slot) is None,
        r matches Err(e) ==> (e matches Error::ProtocolError(ProtocolError::MissingSlotInfo(s)) && exists|i: int|
            0 <= i < net.len() && (#[trigger] net[i]).slot == s && slot_game(info@, s) is None),
{
    let ghost all = net@;
    let mut players: Vec<Player> = Vec::new();
    let mut j: usize = 0;
    while j < net.len()
        invariant
            j <= net.len(),
            all == net@,
            players_unique(players@),
            forall|i: int| 0 <= i < j ==> has_player(players@, (#[trigger] all[i]).team, all[i].slot),
            forall|k: int| 0 <= k < players.len() ==> from_network(all, #[trigger] players[k]),
            forall|k: int| 0 <= k < players.len() ==> slot_game(info@, (#[trigger] players[k]).slot) == Some(players[k].game@),
            forall|i: int| 0 <= i < j ==> slot_game(info@, (#[trigger] all[i]).slot) is Some,
        decreases net.len() - j,
    {
        let p = NetworkPlayer {
            team: net[j].team,
            slot: net[j].slot,
            alias: net[j].alias.clone(),
            name: net[j].name.clone(),
        };
        let game = match find_slot_game(info, p.slot) {
            Some(g) => g,
            None => {
                assert(slot_game(info@, all[j as int].slot) is None);
                assert(net[j as int].slot == p.slot);
                return Err(Error::ProtocolError(ProtocolError::MissingSlotInfo(p.slot)));
            },
        };
        let player = Player::hydrate(p, game);
        assert(from_network(all, player)) by {
            assert(all[j as int].team == player.team);
        }
        let ghost before = players@;
        match find_player(&players, player.team, player.slot) {
            Some(k) => {
                players.set(k, player);
                proof {
                    assert forall|a: int, b: int|
                        0 <= a < players.len() && 0 <= b < players.len() && (#[trigger] players@[a]).team
                            == (#[trigger] players@[b]).team && players@[a].slot == players@[b].slot implies a == b by {
                        assert(before[a].team == before[b].team && before[a].slot == before[b].slot);
                    }
                    assert forall|i: int| 0 <= i < j implies has_player(players@, (#[trigger] all[i]).team, all[i].slot) by {
                        let q = choose|q: int| 0 <= q < before.len() && (#[trigger] before[q]).team == all[i].team
                            && before[q].slot == all[i].slot;
                        if q == k {
                            assert(players@[q].team == all[i].team);
                        } else {
                            assert(players@[q] == before[q]);
                        }
                    }
                    assert(players@[k as int].team == all[j as int].team);
                    assert forall|q: int| 0 <= q < players.len() implies from_network(all, #[trigger] players@[q])
                        && slot_game(info@, players@[q].slot) == Some(players@[q].game@) by {
                        if q != k {
                            assert(players@[q] == before[q]);
                        }
                    }
                }
            },
            None => {
                players.push(player);
                proof {
                    let n = before.len() as int;
                    assert forall|a: int, b: int|
                        0 <= a < players.len() && 0 <= b < players.len() && (#[trigger] players@[a]).team
                            == (#[trigger] players@[b]).team && players@[a].slot == players@[b].slot implies a == b by {
                        if a < n && b < n {
                            assert(before[a].team == before[b].team && before[a].slot == before[b].slot);
                        } else if a < n {
                            assert(has_player(before, before[a].team, before[a].slot));
                        } else if b < n {
                            assert(has_player(before, before[b].team, before[b].slot));
                        }
                    }
                    assert forall|i: int| 0 <= i < j implies has_player(players@, (#[trigger] all[i]).team, all[i].slot) by {
                        let q = choose|q: int| 0 <= q < before.len() && (#[trigger] before[q]).team == all[i].team
                            && before[q].slot == all[i].slot;
                        assert(players@[q] == before[q]);
                    }
                    assert(players@[n].team == all[j as int].team);
                    assert forall|q: int| 0 <= q < players.len() implies from_network(all, #[trigger] players@[q])
                        && slot_game(info@, players@[q].slot) == Some(players@[q].game@) by {
                        if q < n {
                            assert(players@[q] == before[q]);
                        }
                    }
                }
            },
        }
        j = j + 1;
    }
    proof {
        assert forall|i: int| 0 <= i < net.len() implies has_player(players@, (#[trigger] net[i]).team, net[i].slot) by {
            assert(net[i] == all[i]);
        }
        if exists|i: int| 0 <= i < net.len() && slot_game(info@, (#[trigger] net[i]).slot) is None {
            let i = choose|i: int| 0 <= i < net.len() && slot_game(info@, (#[trigger] net[i]).slot) is None;
            assert(net[i] == all[i]);
        }
    }
    Ok(players)
}

/// Whether a slot is a group.
pub open spec fn is_group(s: NetworkSlot) -> bool {
    s.slot_type == SlotType::Group
}

/// Whether `e` is the slot information of `slot` itself.
pub open spec fn owns_slot(e: (u32, NetworkSlot), slot: u32) -> bool {
    !is_group(e.1) && e.0 == slot
}

/// Whether `e` is a group that lists `slot` as a member.
pub open spec fn groups_slot(e: (u32, NetworkSlot), slot: u32) -> bool {
    is_group(e.1) && e.1.group_members@.contains(slot)
}

/// The game of the first slot information entry of `slot` itself.
pub open spec fn own_slot_game(info: Seq<(u32, NetworkSlot)>, slot: u32) -> Option<Seq<char>>
    decreases info.len(),
{
    if info.len() == 0 {
        None
    } else if owns_slot(info[0], slot) {
        Some(info[0].1.game@)
    } else {
        own_slot_game(info.drop_first(), slot)
    }
}

/// The game of the first group that lists `slot` as a member.
pub open spec fn group_slot_game(info: Seq<(u32, NetworkSlot)>, slot: u32) -> Option<Seq<char>>
    decreases info.len(),
{
    if info.len() == 0 {
        None
    } else if groups_slot(info[0], slot) {
        Some(info[0].1.game@)
    } else {
        group_slot_game(info.drop_first(), slot)
    }
}

/// The game played in `slot`: from its own slot information, or else from
/// the first group it belongs to.
pub open spec fn slot_game(info: Seq<(u32, NetworkSlot)>, slot: u32) -> Option<Seq<char>> {
    match own_slot_game(info, slot) {
        Some(g) => Some(g),
        None => group_slot_game(info, slot),
    }
}

/// Whether some network player has this team and slot.
pub open spec fn has_network_player(net: Seq<NetworkPlayer>, team: u32, slot: u32) -> bool {
    exists|i: int| 0 <= i < net.len() && (#[trigger] net[i]).team == team && net[i].slot == slot
}

/// Whether `k` is the first position of game data named `name`.
pub open spec fn first_named(games: Seq<(String, GameData)>, name: Seq<char>, k: int) -> bool {
    &&& 0 <= k < games.len()
    &&& games[k].0@ == name
    &&& forall|j: int| 0 <= j < k ==> (#[trigger] games[j]).0@ != name
}

/// Whether the game data has a location with ID `id`.
pub open spec fn data_has_location(d: GameData, id: i64) -> bool {
    exists|k: int| 0 <= k < d.location_name_to_id.len() && (#[trigger] d.location_name_to_id[k]).1 == id
}

/// Whether the three handshake answers make a session for the game `game`:
/// the player list is not empty; every group member has slot information of
/// its own; every player's slot has a game; the connected player is among the
/// players; the game has data; every player's game has data or is the shared
/// "Archipelago" game; every group member is a player of the connected team;
/// the hint cost is at most 100 percent; and every missing or checked
/// location is a location of the game.
pub open spec fn valid_session(game: Seq<char>, room_info: RoomInfo, dp: DataPackageObject, c: ConnectedMessage) -> bool {
    let info = c.slot_info@;
    &&& c.players.len() > 0
    &&& forall|i: int, m: int|
        0 <= i < info.len() && is_group(info[i].1) && 0 <= m < info[i].1.group_members.len()
            ==> own_slot_game(info, #[trigger] info[i].1.group_members[m]) is Some
    &&& forall|i: int| 0 <= i < c.players.len() ==> slot_game(info, (#[trigger] c.players[i]).slot) is Some
    &&& has_network_player(c.players@, c.team, c.slot)
    &&& exists|k: int| 0 <= k < dp.games.len() && (#[trigger] dp.games[k]).0@ == game
    &&& forall|i: int| 0 <= i < c.players.len() ==> match slot_game(info, (#[trigger] c.players[i]).slot) {
        Some(g) => g == archipelago_name_spec() || exists|k: int| 0 <= k < dp.games.len() && (#[trigger] dp.games[k]).0@ == g,
        None => true,
    }
    &&& forall|i: int, m: int|
        0 <= i < info.len() && is_group(info[i].1) && 0 <= m < info[i].1.group_members.len()
            ==> has_network_player(c.players@, c.team, #[trigger] info[i].1.group_members[m])
    &&& room_info.hint_cost <= 100
    &&& forall|k: int| first_named(dp.games@, game, k) ==> {
        &&& forall|i: int| 0 <= i < c.missing_locations.len()
            ==> data_has_location(dp.games[k].1, #[trigger] c.missing_locations[i])
        &&& forall|i: int| 0 <= i < c.checked_locations.len()
            ==> data_has_location(dp.games[k].1, #[trigger] c.checked_locations[i])
    }
}

proof fn lemma_own_slot_game(info: Seq<(u32, NetworkSlot)>, slot: u32, k: int)
    requires
        0 <= k <= info.len(),
        forall|j: int| 0 <= j < k ==> !owns_slot(#[trigger] info[j], slot),
        k == info.len() || owns_slot(info[k], slot),
    ensures
        own_slot_game(info, slot) == if k == info.len() {
            None
        } else {
            Some(info[k].1.game@)
        },
    decreases k,
{
    if k > 0 {
        assert forall|j: int| 0 <= j < k - 1 implies !owns_slot(#[trigger] info.drop_first()[j], slot) by {
            assert(info.drop_first()[j] == info[j + 1]);
        }
        lemma_own_slot_game(info.drop_first(), slot, k - 1);
    }
}

proof fn lemma_group_slot_game(info: Seq<(u32, NetworkSlot)>, slot: u32, k: int)
    requires
        0 <= k <= info.len(),
        forall|j: int| 0 <= j < k ==> !groups_slot(#[trigger] info[j], slot),
        k == info.len() || groups_slot(info[k], slot),
    ensures
        group_slot_game(info, slot) == if k == info.len() {
            None
        } else {
            Some(info[k].1.game@)
        },
    decreases k,
{
    if k > 0 {
        assert forall|j: int| 0 <= j < k - 1 implies !groups_slot(#[trigger] info.drop_first()[j], slot) by {
            assert(info.drop_first()[j] == info[j + 1]);
        }
        lemma_group_slot_game(info.drop_first(), slot, k - 1);
    }
}

/// Whether `members` lists `slot`.
fn lists(members: &Vec<u32>, slot: u32) -> (r: bool)
    ensures
        r == members@.contains(slot),
{
    let mut m: usize = 0;
    while m < members.len()
        invariant
            m <= members.len(),
            forall|q: int| 0 <= q < m ==> members@[q] != slot,
        decreases members.len() - m,
    {
        if members[m] == slot {
            assert(members@[m as int] == slot);
            return true;
        }
        m = m + 1;
    }
    false
}

/// The game played in `slot`, from the slot information.
fn find_slot_game(info: &Vec<(u32, NetworkSlot)>, slot: u32) -> (r: Option<String>)
    ensures
        match r {
            Some(g) => slot_game(info@, slot) == Some(g@),
            None => slot_game(info@, slot) is None,
        },
{
    let mut j: usize = 0;
    while j < info.len()
        invariant
            j <= info.len(),
            forall|q: int| 0 <= q < j ==> !owns_slot(#[trigger] info@[q], slot),
        decreases info.len() - j,
    {
        if info[j].1.slot_type != SlotType::Group && info[j].0 == slot {
            proof {
                lemma_own_slot_game(info@, slot, j as int);
            }
            return Some(info[j].1.game.clone());
        }
        j = j + 1;
    }
    proof {
        lemma_own_slot_game(info@, slot, info@.len() as int);
    }
    let mut j: usize = 0;
    while j < info.len()
        invariant
            j <= info.len(),
            own_slot_game(info@, slot) is None,
            forall|q: int| 0 <= q < j ==> !groups_slot(#[trigger] info@[q], slot),
        decreases info.len() - j,
    {
        if info[j].1.slot_type == SlotType::Group && lists(&info[j].1.group_members, slot) {
            proof {
                lemma_group_slot_game(info@, slot, j as int);
            }
            return Some(info[j].1.game.clone());
        }
        j = j + 1;
    }
    proof {
        lemma_group_slot_game(info@, slot, info@.len() as int);
    }
    None
}

} // verus!
