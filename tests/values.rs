use archipelago_rs::protocol::{
    network_version, ClientStatus, DataStorageOperation, HintStatus, NetworkItemFlags, NetworkVersion, Permission,
    Print, ServerMessage, SlotType,
};
use archipelago_rs::{
    ConnectionError, ConnectionOptions, CreateHintsOptions, Error, Game, ItemHandling, Location, ProtocolError,
    Version,
};

#[test]
fn protocol_version_is_0_6_0() {
    let v = network_version();
    assert_eq!((v.major, v.minor, v.build), (0, 6, 0));
    assert_eq!(v.class, "Version");
}

#[test]
fn version_from_network() {
    let v = Version::from_network(&NetworkVersion { major: 1, minor: 70000, build: 3, class: String::new() });
    assert_eq!((v.major(), v.minor(), v.build()), (1, u16::MAX, 3));
}

#[test]
fn item_handling_flags() {
    assert_eq!(ItemHandling::NoItems.bits(), 0);
    assert_eq!(ItemHandling::OtherWorlds { own_world: false, starting_inventory: false }.bits(), 1);
    assert_eq!(ItemHandling::OtherWorlds { own_world: true, starting_inventory: false }.bits(), 3);
    assert_eq!(ItemHandling::OtherWorlds { own_world: false, starting_inventory: true }.bits(), 5);
    assert_eq!(ItemHandling::OtherWorlds { own_world: true, starting_inventory: true }.bits(), 7);
    assert_eq!(ConnectionOptions::new().item_handling.bits(), 5);
}

#[test]
fn connection_options_builder() {
    let o = ConnectionOptions::new().password("pw".to_string()).tags(vec!["TextOnly".to_string()]).no_slot_data();
    assert_eq!(o.password.as_deref(), Some("pw"));
    assert_eq!(o.tags, vec!["TextOnly".to_string()]);
    assert!(!o.slot_data);
    let o = ConnectionOptions::new().receive_items(ItemHandling::NoItems);
    assert_eq!(o.item_handling, ItemHandling::NoItems);
}

#[test]
fn wire_codes() {
    assert_eq!(Permission::AutoEnabled.code(), 7);
    assert_eq!(Permission::from_code(6), Some(Permission::Auto));
    assert_eq!(Permission::from_code(3), None);
    assert_eq!(HintStatus::HintAvoid.code(), 20);
    assert_eq!(ClientStatus::ClientGoal.code(), 30);
    assert_eq!(ClientStatus::ClientConnected.code(), 5);
    assert_eq!(SlotType::from_code(2), Some(SlotType::Group));
    assert_eq!(SlotType::from_code(9), None);
    assert_eq!(DataStorageOperation::LeftShift(serde_json::Value::Null).operation_name(), "left_shift");
    assert_eq!(DataStorageOperation::Floor.operation_name(), "floor");
    assert_eq!(ServerMessage::Print(Print { text: String::new() }).message_type(), "Print");
}

#[test]
fn connection_error_parsing() {
    assert!(matches!(ConnectionError::parse("InvalidPassword".to_string()), ConnectionError::InvalidPassword));
    assert!(matches!(ConnectionError::parse("InvalidItemsHandling".to_string()), ConnectionError::InvalidItemsHandling));
    assert!(matches!(ConnectionError::parse("Other".to_string()), ConnectionError::Unknown(s) if s == "Other"));
}

#[test]
fn fatal_errors() {
    assert!(Error::Transport(String::new()).is_fatal());
    assert!(!Error::InvalidPacket(String::new()).is_fatal());
    assert!(!Error::ProtocolError(ProtocolError::EmptyPlayers).is_fatal());
    assert!(Error::ProtocolError(ProtocolError::UnexpectedResponse { actual: String::new(), expected: String::new() })
        .is_fatal());
}

#[test]
fn item_flags() {
    let flags = NetworkItemFlags { bits: 0b101 };
    assert!(flags.contains(archipelago_rs::protocol::PROGRESSION));
    assert!(!flags.contains(archipelago_rs::protocol::USEFUL));
    assert!(flags.contains(archipelago_rs::protocol::TRAP));
}

#[test]
fn game_lookups() {
    let game = Game::archipelago();
    assert_eq!(game.name(), "Archipelago");
    assert!(game.has_location(-1));
    assert!(!game.has_item(1));
    assert_eq!(game.location(-2).unwrap().name(), "Server");
    assert_eq!(game.location_by_name(&"Cheat Console".to_string()).unwrap().id(), -1);
    assert!(matches!(game.location_or_err(7), Err(Error::ProtocolError(ProtocolError::MissingLocation { id: 7, .. }))));
    assert!(matches!(game.item_or_err(7), Err(Error::ProtocolError(ProtocolError::MissingItem { id: 7, .. }))));
    assert_eq!(game.locations().len(), 2);
    assert_eq!(Location::cheat_console(), Location::new(-1, "other".to_string(), "G".to_string()));
}

#[test]
fn hint_options_builder() {
    let o = CreateHintsOptions::new();
    assert_eq!(o.slot, None);
    assert_eq!(o.status, HintStatus::HintUnspecified);
    let o = o.slot(3).status(HintStatus::HintPriority);
    assert_eq!(o.slot, Some(3));
    assert_eq!(o.status, HintStatus::HintPriority);
}

#[test]
fn endpoint_without_scheme_or_port_tries_tls_first_on_the_default_port() {
    let e = archipelago_rs::Endpoint::parse("localhost").unwrap();
    assert_eq!(e.scheme, None);
    assert_eq!(e.host, "localhost");
    assert_eq!(e.port, None);
    assert_eq!(e.path, "");
    assert_eq!(
        e.attempts(),
        vec![(archipelago_rs::Scheme::Wss, 38281), (archipelago_rs::Scheme::Ws, 38281)]
    );
}

#[test]
fn endpoint_with_scheme_port_and_path() {
    let e = archipelago_rs::Endpoint::parse("ws://archipelago.gg:1234/room").unwrap();
    assert_eq!(e.scheme, Some(archipelago_rs::Scheme::Ws));
    assert_eq!(e.host, "archipelago.gg");
    assert_eq!(e.port, Some(1234));
    assert_eq!(e.path, "/room");
    assert_eq!(e.attempts(), vec![(archipelago_rs::Scheme::Ws, 1234)]);
    let e = archipelago_rs::Endpoint::parse("wss://h").unwrap();
    assert_eq!(e.scheme, Some(archipelago_rs::Scheme::Wss));
    assert_eq!(
        e.attempts(),
        vec![(archipelago_rs::Scheme::Wss, 38281), (archipelago_rs::Scheme::Ws, 38281)]
    );
}

#[test]
fn endpoint_rejects_bad_ports_and_empty_hosts() {
    assert!(archipelago_rs::Endpoint::parse("h:65536").is_none());
    assert!(archipelago_rs::Endpoint::parse("h:12a").is_none());
    assert!(archipelago_rs::Endpoint::parse("h:").is_none());
    assert!(archipelago_rs::Endpoint::parse(":80").is_none());
    assert!(archipelago_rs::Endpoint::parse("ws://").is_none());
    assert_eq!(archipelago_rs::Endpoint::parse("h:65535").unwrap().port, Some(65535));
}

#[test]
fn locations_compare_by_id() {
    let a = Location::new(1, "a".to_string(), "G".to_string());
    let b = Location::new(1, "b".to_string(), "H".to_string());
    assert_eq!(a, b);
}
