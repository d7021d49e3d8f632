use archipelago_rs::protocol::{
    BounceData, Bounced, ClientMessage, Connected, ConnectionRefused, CreateAsHint, DataPackage,
    DataPackageObject, DeathLink, GameData, InvalidPacket, LocationInfo, NetworkItem, NetworkItemFlags,
    NetworkPlayer, NetworkPrint, NetworkSlot, NetworkText, NetworkVersion, Permission, PermissionMap, Print,
    ReceivedItems, RoomInfo, RoomUpdate, ServerMessage, SetReply, SlotType, Timestamp,
};
use archipelago_rs::{
    classify_frame, ArgumentError, Cache, Client, ConnectionError, ConnectionOptions,
    ConnectionStateType, Connection, Error, Event, Frame, FrameAction, ProtocolError, RichText, UpdatedField,
};

fn version(major: u64, minor: u64, build: u64) -> NetworkVersion {
    NetworkVersion { major, minor, build, class: "Version".to_string() }
}

fn room_info(hint_cost: u8) -> RoomInfo {
    RoomInfo {
        version: version(0, 6, 0),
        generator_version: version(0, 6, 0),
        tags: vec![],
        password_required: false,
        permissions: PermissionMap {
            release: Permission::Disabled,
            collect: Permission::Disabled,
            remaining: Permission::Disabled,
        },
        hint_cost,
        location_check_points: 1,
        games: vec!["G".to_string()],
        datapackage_checksums: vec![],
        seed_name: "ABC".to_string(),
    }
}

fn game_data(locations: &[(&str, i64)]) -> GameData {
    GameData {
        item_name_to_id: vec![("I".to_string(), 100)],
        location_name_to_id: locations.iter().map(|(n, id)| (n.to_string(), *id)).collect(),
        checksum: "x".to_string(),
    }
}

fn data_package(locations: &[(&str, i64)]) -> DataPackage {
    DataPackage { data: DataPackageObject { games: vec![("G".to_string(), game_data(locations))] } }
}

fn player(slot: u32, alias: &str, name: &str) -> NetworkPlayer {
    NetworkPlayer { team: 0, slot, alias: alias.to_string(), name: name.to_string() }
}

fn slot_info(name: &str) -> NetworkSlot {
    NetworkSlot { name: name.to_string(), game: "G".to_string(), slot_type: SlotType::Player, group_members: vec![] }
}

fn connected(players: Vec<NetworkPlayer>, missing: Vec<i64>) -> Connected {
    Connected {
        team: 0,
        slot: 1,
        players,
        missing_locations: missing,
        checked_locations: vec![],
        slot_data: serde_json::Value::Null,
        slot_info: vec![(1, slot_info("me")), (2, slot_info("you"))],
        hint_points: 0,
    }
}

/// Connects to a room with one game "G" and two players, slots 1 and 2.
fn connect_with(locations: &[(&str, i64)], missing: Vec<i64>, hint_cost: u8) -> (Connection, Vec<Event>) {
    let mut connection = Connection::new(
        "localhost".to_string(),
        "G".to_string(),
        "me".to_string(),
        ConnectionOptions::new(),
    );
    connection.receive(Ok(ServerMessage::RoomInfo(room_info(hint_cost))));
    assert!(connection.update().is_empty());
    connection.receive(Ok(ServerMessage::DataPackage(data_package(locations))));
    assert!(connection.update().is_empty());
    connection.receive(Ok(ServerMessage::Connected(connected(
        vec![player(1, "Me", "me"), player(2, "You", "you")],
        missing,
    ))));
    let events = connection.update();
    connection.take_outgoing();
    (connection, events)
}

fn connect() -> Connection {
    connect_with(&[("L", 200)], vec![200], 10).0
}

fn client_mut(connection: &mut Connection) -> &mut Client {
    connection.client_mut().expect("not connected")
}

fn item(item: i64, location: i64, player: u32) -> NetworkItem {
    NetworkItem { item, location, player, flags: NetworkItemFlags { bits: 1 } }
}

#[test]
fn minimal_connect() {
    let mut connection = Connection::new(
        "localhost".to_string(),
        "G".to_string(),
        "me".to_string(),
        ConnectionOptions::new(),
    );
    assert_eq!(connection.state_type(), ConnectionStateType::Connecting);
    connection.receive(Ok(ServerMessage::RoomInfo(room_info(10))));
    assert!(connection.update().is_empty());
    let out = connection.take_outgoing();
    assert_eq!(out.len(), 1);
    assert!(matches!(&out[0], ClientMessage::GetDataPackage(g) if g.games.is_none()));
    connection.receive(Ok(ServerMessage::DataPackage(data_package(&[("L", 200)]))));
    assert!(connection.update().is_empty());
    let out = connection.take_outgoing();
    match &out[0] {
        ClientMessage::Connect(c) => {
            assert_eq!(c.game, "G");
            assert_eq!(c.name, "me");
            assert_eq!(c.uuid, "");
            assert_eq!((c.version.major, c.version.minor, c.version.build), (0, 6, 0));
            assert_eq!(c.items_handling, 5);
            assert!(c.slot_data);
        }
        other => panic!("unexpected {:?}", other),
    }
    connection.receive(Ok(ServerMessage::Connected(connected(vec![player(1, "Me", "me")], vec![200]))));
    let events = connection.update();
    assert_eq!(events.len(), 1);
    assert!(matches!(events[0], Event::Connected));
    assert_eq!(connection.state_type(), ConnectionStateType::Connected);
    assert!(connection.is_connected());
    let client = connection.client().unwrap();
    assert_eq!(client.this_game().name(), "G");
    assert!(!client.is_local_location_checked(200));
    assert_eq!(client.seed_name(), "ABC");
    assert_eq!(client.this_player().alias(), "Me");
}

#[test]
fn mark_check() {
    let mut connection = connect();
    let client = client_mut(&mut connection);
    assert!(client.mark_checked(vec![200]).is_ok());
    let out = client.take_outgoing();
    assert_eq!(out.len(), 1);
    assert!(matches!(&out[0], ClientMessage::LocationChecks(m) if m.locations == vec![200]));
    assert!(client.is_local_location_checked(200));
    assert_eq!(client.hint_points(), 1);
}

#[test]
fn mark_check_credits_each_new_location_once() {
    let (mut connection, _) = connect_with(&[("A", 1), ("B", 2), ("C", 3)], vec![1, 2, 3], 10);
    let client = client_mut(&mut connection);
    assert!(client.mark_checked(vec![1, 2, 1]).is_ok());
    assert_eq!(client.hint_points(), 2);
    assert!(client.mark_checked(vec![2, 3]).is_ok());
    assert_eq!(client.hint_points(), 3);
    assert!(client.is_local_location_checked(1));
    assert!(client.is_local_location_checked(3));
}

#[test]
fn mark_unknown_location() {
    let mut connection = connect();
    let client = client_mut(&mut connection);
    match client.mark_checked(vec![200, 999]) {
        Err(Error::ArgumentError(ArgumentError::InvalidLocation { location, game })) => {
            assert_eq!(location, 999);
            assert_eq!(game, "G");
        }
        other => panic!("unexpected {:?}", other),
    }
    assert!(client.take_outgoing().is_empty());
    assert!(!client.is_local_location_checked(200));
    assert_eq!(client.hint_points(), 0);
}

#[test]
fn scouts_resolve_in_request_order() {
    let (mut connection, _) = connect_with(&[("L", 200), ("M", 201)], vec![200, 201], 10);
    let client = client_mut(&mut connection);
    let a = client.scout_locations(vec![200], CreateAsHint::No);
    let b = client.scout_locations(vec![200], CreateAsHint::New);
    let out = client.take_outgoing();
    assert!(matches!(&out[0], ClientMessage::LocationScouts(m) if m.create_as_hint == CreateAsHint::No));
    assert!(matches!(&out[1], ClientMessage::LocationScouts(m) if m.create_as_hint == CreateAsHint::New));
    client.receive(Ok(ServerMessage::LocationInfo(LocationInfo { locations: vec![item(100, 200, 2)] })));
    client.receive(Ok(ServerMessage::LocationInfo(LocationInfo { locations: vec![item(100, 201, 2)] })));
    assert!(client.update().is_empty());
    let first = a.try_recv().unwrap().unwrap();
    let second = b.try_recv().unwrap().unwrap();
    assert_eq!(first[0].location.id, 200);
    assert_eq!(second[0].location.id, 201);
    assert_eq!(first[0].receiver.slot, 2);
    assert_eq!(first[0].sender.slot, 1);
}

#[test]
fn scout_of_unknown_location_fails_at_once() {
    let mut connection = connect();
    let client = client_mut(&mut connection);
    let r = client.scout_locations(vec![5], CreateAsHint::All);
    assert!(client.take_outgoing().is_empty());
    assert!(matches!(
        r.try_recv().unwrap(),
        Err(Error::ArgumentError(ArgumentError::InvalidLocation { location: 5, .. }))
    ));
}

#[test]
fn location_info_without_request() {
    let mut connection = connect();
    connection.receive(Ok(ServerMessage::LocationInfo(LocationInfo { locations: vec![] })));
    let events = connection.update();
    assert_eq!(events.len(), 1);
    match &events[0] {
        Event::Error(Error::ProtocolError(ProtocolError::ResponseWithoutRequest(s))) => assert_eq!(s, "LocationInfo"),
        other => panic!("unexpected {:?}", other),
    }
    assert!(connection.is_connected());
}

#[test]
fn death_link_received() {
    let mut connection = connect();
    connection.receive(Ok(ServerMessage::Bounced(Bounced {
        games: None,
        slots: Some(vec![1]),
        tags: Some(vec!["DeathLink".to_string()]),
        data: BounceData::DeathLink(DeathLink {
            time: Timestamp { secs: 1700000000, nanos: 0 },
            cause: Some("fell".to_string()),
            source: "X".to_string(),
        }),
    })));
    let events = connection.update();
    assert_eq!(events.len(), 1);
    match &events[0] {
        Event::DeathLink { games, slots, tags, time, cause, source } => {
            assert!(games.is_none());
            assert_eq!(slots, &Some(vec![1]));
            assert_eq!(tags, &vec!["DeathLink".to_string()]);
            assert_eq!(time.secs, 1700000000);
            assert_eq!(cause.as_deref(), Some("fell"));
            assert_eq!(source, "X");
        }
        other => panic!("unexpected {:?}", other),
    }
}

#[test]
fn generic_bounce_received() {
    let mut connection = connect();
    connection.receive(Ok(ServerMessage::Bounced(Bounced {
        games: Some(vec!["G".to_string()]),
        slots: None,
        tags: None,
        data: BounceData::Generic(Some(serde_json::Value::Bool(true))),
    })));
    let events = connection.update();
    assert!(matches!(&events[0], Event::Bounce { data: Some(serde_json::Value::Bool(true)), .. }));
}

#[test]
fn death_link_sent_carries_tag_and_alias() {
    let mut connection = connect();
    let client = client_mut(&mut connection);
    client.death_link(archipelago_rs::DeathLinkOptions::new(), Timestamp { secs: 5, nanos: 0 }).unwrap();
    let out = client.take_outgoing();
    match &out[0] {
        ClientMessage::Bounce(b) => {
            assert_eq!(b.tags, Some(vec!["DeathLink".to_string()]));
            match &b.data {
                BounceData::DeathLink(d) => {
                    assert_eq!(d.source, "Me");
                    assert_eq!(d.time.secs, 5);
                }
                _ => panic!("not a death link"),
            }
        }
        other => panic!("unexpected {:?}", other),
    }
}

#[test]
fn cache_miss_then_store() {
    let cache = Cache::path("root".to_string());
    assert_eq!(cache.file_path(&"G".to_string(), &"x".to_string()), "root/datapackage/G/x.json");
    assert_eq!(cache.data_package_path(), "root/datapackage");
    let requests = vec![("G".to_string(), "x".to_string())];
    assert!(Cache::select(&requests, vec![None]).is_empty());
    let loaded = Cache::select(&requests, vec![Some(game_data(&[("L", 200)]))]);
    assert_eq!(loaded.len(), 1);
    assert_eq!(loaded[0].0, "G");
    assert_eq!(loaded[0].1.checksum, "x");
    let other = vec![("G".to_string(), "y".to_string())];
    assert!(Cache::select(&other, vec![Some(game_data(&[("L", 200)]))]).is_empty());
}

#[test]
fn room_update_is_all_or_nothing() {
    let mut connection = connect();
    connection.receive(Ok(ServerMessage::RoomUpdate(RoomUpdate {
        tags: Some(vec!["New".to_string()]),
        permissions: None,
        hint_cost: None,
        location_check_points: None,
        hint_points: None,
        players: Some(vec![NetworkPlayer { team: 0, slot: 9, alias: "Z".to_string(), name: "z".to_string() }]),
        checked_locations: None,
    })));
    let events = connection.update();
    assert_eq!(events.len(), 1);
    assert!(matches!(
        &events[0],
        Event::Error(Error::ProtocolError(ProtocolError::MissingPlayer { team: 0, slot: 9 }))
    ));
    assert!(connection.client().unwrap().server_tags().is_empty());
    assert!(connection.is_connected());
}

#[test]
fn room_update_applies_and_reports_previous_values() {
    let (mut connection, _) = connect_with(&[("A", 1), ("B", 2)], vec![1, 2], 50);
    client_mut(&mut connection).mark_checked(vec![1]).unwrap();
    connection.receive(Ok(ServerMessage::RoomUpdate(RoomUpdate {
        tags: Some(vec!["New".to_string()]),
        permissions: None,
        hint_cost: Some(100),
        location_check_points: None,
        hint_points: Some(7),
        players: Some(vec![player(2, "Renamed", "you")]),
        checked_locations: Some(vec![1, 2]),
    })));
    let events = connection.update();
    assert_eq!(events.len(), 1);
    let fields = match &events[0] {
        Event::Updated(fields) => fields,
        other => panic!("unexpected {:?}", other),
    };
    assert!(fields.iter().any(|f| matches!(f, UpdatedField::ServerTags(t) if t.is_empty())));
    assert!(fields.iter().any(|f| matches!(f, UpdatedField::HintEconomy { points_per_hint: 1, hint_points_per_check: 1 })));
    assert!(fields.iter().any(|f| matches!(f, UpdatedField::HintPoints(1))));
    assert!(fields.iter().any(|f| matches!(f, UpdatedField::Players(p) if p.len() == 1 && p[0].alias == "You")));
    assert!(fields.iter().any(|f| matches!(f, UpdatedField::CheckedLocations(l) if l.len() == 1 && l[0].id == 2)));
    let client = connection.client().unwrap();
    assert_eq!(client.server_tags(), &vec!["New".to_string()]);
    assert_eq!(client.points_per_hint(), 2);
    assert_eq!(client.hint_points(), 7);
    assert_eq!(client.teammate(2).unwrap().alias(), "Renamed");
    assert!(client.is_local_location_checked(2));
}

#[test]
fn empty_players_fail_the_handshake() {
    let mut connection = Connection::new("h".to_string(), "G".to_string(), "me".to_string(), ConnectionOptions::new());
    connection.receive(Ok(ServerMessage::RoomInfo(room_info(10))));
    connection.receive(Ok(ServerMessage::DataPackage(data_package(&[("L", 200)]))));
    connection.receive(Ok(ServerMessage::Connected(connected(vec![], vec![200]))));
    let events = connection.update();
    assert!(matches!(events.last(), Some(Event::Error(Error::Elsewhere))));
    assert!(connection.is_disconnected());
    assert!(matches!(connection.into_err(), Error::ProtocolError(ProtocolError::EmptyPlayers)));
}

#[test]
fn connection_refused_maps_reasons() {
    let mut connection = Connection::new("h".to_string(), "G".to_string(), "me".to_string(), ConnectionOptions::new());
    connection.receive(Ok(ServerMessage::RoomInfo(room_info(10))));
    connection.receive(Ok(ServerMessage::DataPackage(data_package(&[("L", 200)]))));
    connection.receive(Ok(ServerMessage::ConnectionRefused(ConnectionRefused {
        errors: vec!["InvalidSlot".to_string(), "Weird".to_string()],
    })));
    connection.update();
    match connection.into_err() {
        Error::ConnectionRefused(errors) => {
            assert!(matches!(errors[0], ConnectionError::InvalidSlot));
            assert!(matches!(&errors[1], ConnectionError::Unknown(s) if s == "Weird"));
        }
        other => panic!("unexpected {:?}", other),
    }
}

#[test]
fn unexpected_handshake_message_is_fatal() {
    let mut connection = Connection::new("h".to_string(), "G".to_string(), "me".to_string(), ConnectionOptions::new());
    connection.receive(Ok(ServerMessage::Print(Print { text: "hi".to_string() })));
    let events = connection.update();
    assert_eq!(events.len(), 1);
    match connection.into_err() {
        Error::ProtocolError(ProtocolError::UnexpectedResponse { actual, expected }) => {
            assert_eq!(actual, "Print");
            assert_eq!(expected, "RoomInfo");
        }
        other => panic!("unexpected {:?}", other),
    }
}

#[test]
fn binary_frame_is_reported_and_session_continues() {
    let mut connection = connect();
    let error = match classify_frame(Frame::Binary(vec![1, 2])) {
        FrameAction::Reject(e) => e,
        other => panic!("unexpected {:?}", other),
    };
    assert!(!error.is_fatal());
    connection.receive(Err(error));
    connection.receive(Ok(ServerMessage::Print(Print { text: "after".to_string() })));
    let events = connection.update();
    assert_eq!(events.len(), 2);
    assert!(matches!(&events[0], Event::Error(Error::ProtocolError(ProtocolError::BinaryMessage(b))) if b == &vec![1, 2]));
    assert!(matches!(&events[1], Event::Print(p) if matches!(&p.parts[0], RichText::Text(t) if t == "after")));
    assert!(connection.is_connected());
    assert!(matches!(classify_frame(Frame::Text("[]".to_string())), FrameAction::Decode(t) if t == "[]"));
    assert!(matches!(classify_frame(Frame::Ping), FrameAction::Ignore));
}

#[test]
fn transport_failure_disconnects() {
    let mut connection = connect();
    connection.receive(Err(Error::Transport("closed".to_string())));
    let events = connection.update();
    assert!(matches!(events.last(), Some(Event::Error(Error::Elsewhere))));
    assert!(connection.is_disconnected());
    assert!(matches!(connection.err(), Some(Error::Transport(_))));
    assert!(connection.update().is_empty());
}

#[test]
fn reserved_locations_resolve_to_archipelago() {
    let cheat = archipelago_rs::Location::well_known(-1).unwrap();
    assert_eq!(cheat.game(), "Archipelago");
    assert_eq!(cheat.name(), "Cheat Console");
    let server = archipelago_rs::Location::well_known(-2).unwrap();
    assert_eq!(server.game(), "Archipelago");
    assert_eq!(server.name(), "Server");
    assert!(archipelago_rs::Location::well_known(5).is_none());

    let mut connection = connect();
    connection.receive(Ok(ServerMessage::ReceivedItems(ReceivedItems { index: 0, items: vec![item(100, -2, 2)] })));
    let events = connection.update();
    match &events[0] {
        Event::ReceivedItems { index, items } => {
            assert_eq!(*index, 0);
            assert_eq!(items[0].location.game, "Archipelago");
            assert_eq!(items[0].location.id, -2);
            assert_eq!(items[0].sender.slot, 2);
            assert_eq!(items[0].receiver.slot, 1);
            assert!(items[0].is_progression());
        }
        other => panic!("unexpected {:?}", other),
    }
}

#[test]
fn received_items_keep_their_index() {
    let mut connection = connect();
    connection.receive(Ok(ServerMessage::ReceivedItems(ReceivedItems { index: 3, items: vec![item(100, 200, 1)] })));
    connection.receive(Ok(ServerMessage::ReceivedItems(ReceivedItems { index: 4, items: vec![item(100, 200, 1)] })));
    let events = connection.update();
    assert!(matches!(&events[0], Event::ReceivedItems { index: 3, items } if items.len() == 1));
    assert!(matches!(&events[1], Event::ReceivedItems { index: 4, .. }));
}

#[test]
fn points_per_hint_rounds_down() {
    let (connection, _) = connect_with(&[("A", 1), ("B", 2), ("C", 3)], vec![1, 2, 3], 50);
    assert_eq!(connection.client().unwrap().points_per_hint(), 1);
    let (connection, _) = connect_with(&[("A", 1), ("B", 2), ("C", 3)], vec![1, 2, 3], 100);
    assert_eq!(connection.client().unwrap().points_per_hint(), 3);
}

#[test]
fn hint_cost_above_one_hundred_is_rejected() {
    let (connection, events) = connect_with(&[("L", 200)], vec![200], 101);
    assert!(matches!(events.last(), Some(Event::Error(Error::Elsewhere))));
    assert!(matches!(connection.into_err(), Error::ProtocolError(ProtocolError::InvalidHintCost(101))));
}

#[test]
fn rich_print_is_hydrated() {
    let mut connection = connect();
    connection.receive(Ok(ServerMessage::RichPrint(NetworkPrint {
        kind: Some("ItemSend".to_string()),
        data: vec![
            NetworkText::PlayerId { id: 2 },
            NetworkText::Text { text: " found ".to_string() },
            NetworkText::ItemId { id: 100, player: 1, flags: NetworkItemFlags { bits: 2 } },
            NetworkText::LocationId { id: 200, player: 1 },
        ],
    })));
    connection.receive(Ok(ServerMessage::RichPrint(NetworkPrint {
        kind: None,
        data: vec![NetworkText::PlayerId { id: 42 }],
    })));
    let events = connection.update();
    match &events[0] {
        Event::Print(p) => {
            assert_eq!(p.parts.len(), 4);
            assert!(matches!(&p.parts[0], RichText::Player(pl) if pl.alias == "You"));
            assert!(matches!(&p.parts[2], RichText::Item { item, .. } if item.name == "I"));
            assert!(matches!(&p.parts[3], RichText::Location { location, .. } if location.name == "L"));
        }
        other => panic!("unexpected {:?}", other),
    }
    assert!(matches!(&events[1], Event::Error(Error::ProtocolError(ProtocolError::MissingPlayer { slot: 42, .. }))));
}

#[test]
fn key_changes_and_invalid_packets_become_events() {
    let mut connection = connect();
    connection.receive(Ok(ServerMessage::SetReply(SetReply {
        key: "k".to_string(),
        value: serde_json::Value::Bool(true),
        original_value: None,
        slot: 2,
    })));
    connection.receive(Ok(ServerMessage::InvalidPacket(InvalidPacket {
        packet_type: "cmd".to_string(),
        original_cmd: None,
        text: "bad".to_string(),
    })));
    let events = connection.update();
    assert!(matches!(&events[0], Event::KeyChanged { key, player, .. } if key == "k" && player.slot == 2));
    assert!(matches!(&events[1], Event::Error(Error::InvalidPacket(t)) if t == "bad"));
    assert!(connection.is_connected());
}

#[test]
fn get_is_answered_by_retrieved() {
    let mut connection = connect();
    let client = client_mut(&mut connection);
    let r = client.get(vec!["a".to_string()]);
    client.receive(Ok(ServerMessage::Retrieved(archipelago_rs::protocol::Retrieved { keys: serde_json::Value::Null })));
    client.receive(Ok(ServerMessage::Retrieved(archipelago_rs::protocol::Retrieved { keys: serde_json::Value::Null })));
    let events = client.update();
    assert!(matches!(r.try_recv().unwrap(), Ok(serde_json::Value::Null)));
    assert!(matches!(&events[0], Event::Error(Error::ProtocolError(ProtocolError::ResponseWithoutRequest(s))) if s == "Get"));
}

#[test]
fn update_hint_checks_slot_and_location() {
    let mut connection = connect();
    let client = client_mut(&mut connection);
    assert!(matches!(
        client.update_hint(9, 200, archipelago_rs::protocol::HintStatus::HintPriority),
        Err(Error::ArgumentError(ArgumentError::InvalidSlot(9)))
    ));
    assert!(matches!(
        client.update_hint(2, 999, archipelago_rs::protocol::HintStatus::HintPriority),
        Err(Error::ArgumentError(ArgumentError::InvalidLocation { location: 999, .. }))
    ));
    assert!(client.take_outgoing().is_empty());
    client.update_hint(2, 200, archipelago_rs::protocol::HintStatus::HintAvoid).unwrap();
    assert!(matches!(&client.take_outgoing()[0], ClientMessage::UpdateHint(m) if m.player == 2 && m.location == 200));
}

#[test]
fn death_link_round_trips_through_the_server() {
    let mut connection = connect();
    let options = archipelago_rs::DeathLinkOptions::new()
        .cause("Me fell".to_string())
        .time(Timestamp { secs: 1700000000, nanos: 5 })
        .slots(vec![2]);
    client_mut(&mut connection).death_link(options, Timestamp { secs: 1, nanos: 0 }).unwrap();
    let bounce = match connection.take_outgoing().pop() {
        Some(ClientMessage::Bounce(b)) => b,
        other => panic!("unexpected {:?}", other),
    };
    connection.receive(Ok(ServerMessage::Bounced(Bounced {
        games: bounce.games,
        slots: bounce.slots,
        tags: bounce.tags,
        data: bounce.data,
    })));
    let events = connection.update();
    match &events[0] {
        Event::DeathLink { slots, tags, time, cause, source, .. } => {
            assert_eq!(slots, &Some(vec![2]));
            assert_eq!(tags, &vec!["DeathLink".to_string()]);
            assert_eq!(*time, Timestamp { secs: 1700000000, nanos: 5 });
            assert_eq!(cause.as_deref(), Some("Me fell"));
            assert_eq!(source, "Me");
        }
        other => panic!("unexpected {:?}", other),
    }
}

#[test]
fn state_mut_gives_the_session() {
    let mut connection = connect();
    assert!(matches!(connection.state_mut(), archipelago_rs::ConnectionState::Connected(_)));
    assert_eq!(connection.state().state_type(), ConnectionStateType::Connected);
}
