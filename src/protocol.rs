//! The messages of the Archipelago network protocol, as plain values.
use vstd::prelude::*;

verus! {

/// A version triple as it travels on the wire.
#[derive(Debug)]
pub struct NetworkVersion {
    pub major: u64,
    pub minor: u64,
    pub build: u64,
    pub class: String,
}

/// The protocol version this client speaks: 0.6.0.
pub fn network_version() -> (r: NetworkVersion)
    ensures
        r.major == 0,
        r.minor == 6,
        r.build == 0,
        r.class@ == "Version"@,
{
    NetworkVersion { major: 0, minor: 6, build: 0, class: String::from_str("Version") }
}

/// When an action such as releasing all remaining items may be taken.
#[derive(Debug, Clone, Copy, PartialEq, Eq, Structural)]
pub enum Permission {
    /// Never.
    Disabled,
    /// Manually, at any time.
    Enabled,
    /// Manually, after the player reached their goal.
    Goal,
    /// Automatically, once the player reached their goal.
    Auto,
    /// Automatically at the goal, and manually at any time.
    AutoEnabled,
}

/// The number that stands for each permission on the wire.
pub open spec fn permission_code(p: Permission) -> u8 {
    match p {
        Permission::Disabled => 0,
        Permission::Enabled => 1,
        Permission::Goal => 2,
        Permission::Auto => 6,
        Permission::AutoEnabled => 7,
    }
}

impl Permission {
    /// The permission's number on the wire.
    pub fn code(&self) -> (r: u8)
        ensures
            r == permission_code(*self),
    {
        match self {
            Permission::Disabled => 0,
            Permission::Enabled => 1,
            Permission::Goal => 2,
            Permission::Auto => 6,
            Permission::AutoEnabled => 7,
        }
    }

    /// The permission with wire number `code`, if there is one.
    pub fn from_code(code: u8) -> (r: Option<Permission>)
        ensures
            r matches Some(p) ==> permission_code(p) == code,
            r is None ==> forall|p: Permission| permission_code(p) != code,
    {
        match code {
            0 => Some(Permission::Disabled),
            1 => Some(Permission::Enabled),
            2 => Some(Permission::Goal),
            6 => Some(Permission::Auto),
            7 => Some(Permission::AutoEnabled),
            _ => None,
        }
    }
}

/// The three permissions of a room.
#[derive(Debug, Clone, Copy, PartialEq, Eq, Structural)]
pub struct PermissionMap {
    pub release: Permission,
    pub collect: Permission,
    pub remaining: Permission,
}

/// A player as the server describes it.
#[derive(Debug)]
pub struct NetworkPlayer {
    pub team: u32,
    pub slot: u32,
    pub alias: String,
    pub name: String,
}

/// The flag bits of an item.
#[derive(Debug, Clone, Copy, PartialEq, Eq, Structural)]
pub struct NetworkItemFlags {
    pub bits: u8,
}

/// The item can unlock logical advancement.
pub const PROGRESSION: u8 = 1;
/// The item is especially useful.
pub const USEFUL: u8 = 2;
/// The item is a trap.
pub const TRAP: u8 = 4;

impl NetworkItemFlags {
    /// Whether every bit of `mask` is set.
    pub fn contains(&self, mask: u8) -> (r: bool)
        ensures
            r == (self.bits & mask == mask),
    {
        self.bits & mask == mask
    }
}

/// An item at a location, as the server describes it.
#[derive(Debug, Clone, Copy, PartialEq, Eq, Structural)]
pub struct NetworkItem {
    pub item: i64,
    pub location: i64,
    pub player: u32,
    pub flags: NetworkItemFlags,
}

/// The kind of a slot.
#[derive(Debug, Clone, Copy, PartialEq, Eq, Structural)]
pub enum SlotType {
    Spectator,
    Player,
    Group,
}

impl SlotType {
    /// The slot type with wire number `code`, if there is one.
    pub fn from_code(code: u8) -> (r: Option<SlotType>)
        ensures
            code == 0 ==> r == Some(SlotType::Spectator),
            code == 1 ==> r == Some(SlotType::Player),
            code == 2 ==> r == Some(SlotType::Group),
            code > 2 ==> r is None,
    {
        match code {
            0 => Some(SlotType::Spectator),
            1 => Some(SlotType::Player),
            2 => Some(SlotType::Group),
            _ => None,
        }
    }
}

/// Information about a slot: its name, game and kind, and for a group its
/// members.
#[derive(Debug)]
pub struct NetworkSlot {
    pub name: String,
    pub game: String,
    pub slot_type: SlotType,
    pub group_members: Vec<u32>,
}

// Requests

/// Asks the server to join a slot.
#[derive(Debug)]
pub struct Connect {
    pub password: Option<String>,
    pub game: String,
    pub name: String,
    pub uuid: String,
    pub version: NetworkVersion,
    pub items_handling: u8,
    pub tags: Vec<String>,
    pub slot_data: bool,
}

/// Changes the items handling or tags of the connection.
#[derive(Debug)]
pub struct ConnectUpdate {
    pub items_handling: Option<u8>,
    pub tags: Option<Vec<String>>,
}

/// Reports checked locations.
#[derive(Debug)]
pub struct LocationChecks {
    pub locations: Vec<i64>,
}

/// Whether scouted locations become hints.
#[derive(Debug, Clone, Copy, PartialEq, Eq, Structural)]
pub enum CreateAsHint {
    /// No hints are created.
    No,
    /// Every scouted location becomes a hint.
    All,
    /// Only locations not yet hinted become hints.
    New,
}

impl CreateAsHint {
    /// The wire number: 0, 1 or 2.
    pub fn code(&self) -> (r: u8)
        ensures
            *self == CreateAsHint::No ==> r == 0,
            *self == CreateAsHint::All ==> r == 1,
            *self == CreateAsHint::New ==> r == 2,
    {
        match self {
            CreateAsHint::No => 0,
            CreateAsHint::All => 1,
            CreateAsHint::New => 2,
        }
    }
}

/// Asks what items stand at locations.
#[derive(Debug)]
pub struct LocationScouts {
    pub locations: Vec<i64>,
    pub create_as_hint: CreateAsHint,
}

/// Changes the status of a hint.
#[derive(Debug)]
pub struct UpdateHint {
    pub player: u32,
    pub location: i64,
    pub status: HintStatus,
}

/// The status of a hint.
#[derive(Debug, Clone, Copy, PartialEq, Eq, Structural)]
pub enum HintStatus {
    HintFound,
    HintUnspecified,
    HintNoPriority,
    HintAvoid,
    HintPriority,
}

/// The number that stands for each hint status on the wire.
pub open spec fn hint_status_code(s: HintStatus) -> u16 {
    match s {
        HintStatus::HintFound => 0,
        HintStatus::HintUnspecified => 1,
        HintStatus::HintNoPriority => 10,
        HintStatus::HintAvoid => 20,
        HintStatus::HintPriority => 30,
    }
}

impl HintStatus {
    /// The status's number on the wire.
    pub fn code(&self) -> (r: u16)
        ensures
            r == hint_status_code(*self),
    {
        match self {
            HintStatus::HintFound => 0,
            HintStatus::HintUnspecified => 1,
            HintStatus::HintNoPriority => 10,
            HintStatus::HintAvoid => 20,
            HintStatus::HintPriority => 30,
        }
    }
}

/// Reports the client's status.
#[derive(Debug)]
pub struct StatusUpdate {
    pub status: ClientStatus,
}

/// The status of a client.
#[derive(Debug, Clone, Copy, PartialEq, Eq, Structural)]
pub enum ClientStatus {
    ClientUnknown,
    ClientConnected,
    ClientReady,
    ClientPlaying,
    ClientGoal,
}

/// The number that stands for each client status on the wire.
pub open spec fn client_status_code(s: ClientStatus) -> u16 {
    match s {
        ClientStatus::ClientUnknown => 0,
        ClientStatus::ClientConnected => 5,
        ClientStatus::ClientReady => 10,
        ClientStatus::ClientPlaying => 20,
        ClientStatus::ClientGoal => 30,
    }
}

impl ClientStatus {
    /// The status's number on the wire.
    pub fn code(&self) -> (r: u16)
        ensures
            r == client_status_code(*self),
    {
        match self {
            ClientStatus::ClientUnknown => 0,
            ClientStatus::ClientConnected => 5,
            ClientStatus::ClientReady => 10,
            ClientStatus::ClientPlaying => 20,
            ClientStatus::ClientGoal => 30,
        }
    }
}

/// A chat message.
#[derive(Debug)]
pub struct Say {
    pub text: String,
}

/// Asks for the data package of the named games, or of all games.
#[derive(Debug)]
pub struct GetDataPackage {
    pub games: Option<Vec<String>>,
}

/// Reads keys of the data store.
#[derive(Debug)]
pub struct Get {
    pub keys: Vec<String>,
}

/// Writes a key of the data store.
#[derive(Debug)]
pub struct SetRequest {
    pub key: String,
    /// The value the key starts from when it has none; absent means null.
    pub default: Option<serde_json::Value>,
    pub want_reply: bool,
    pub operations: Vec<DataStorageOperation>,
}

/// One step of a data store write.
#[derive(Debug)]
pub enum DataStorageOperation {
    Replace(serde_json::Value),
    Default,
    Add(serde_json::Value),
    Append(serde_json::Value),
    Mul(serde_json::Value),
    Pow(serde_json::Value),
    Mod(serde_json::Value),
    Floor,
    Ceil,
    Max(serde_json::Value),
    Min(serde_json::Value),
    And(serde_json::Value),
    Or(serde_json::Value),
    Xor(serde_json::Value),
    LeftShift(serde_json::Value),
    RightShift(serde_json::Value),
    Remove(serde_json::Value),
    RemoveIndex(serde_json::Value),
    RemoveKey(serde_json::Value),
    Pop(serde_json::Value),
    Union(serde_json::Value),
    Update(serde_json::Value),
}

impl DataStorageOperation {
    /// The operation's name on the wire.
    pub fn operation_name(&self) -> (r: &'static str)
        ensures
            self is Replace ==> r@ == "replace"@,
            self is Default ==> r@ == "default"@,
            self is Add ==> r@ == "add"@,
            self is Append ==> r@ == "append"@,
            self is Mul ==> r@ == "mul"@,
            self is Pow ==> r@ == "pow"@,
            self is Mod ==> r@ == "mod"@,
            self is Floor ==> r@ == "floor"@,
            self is Ceil ==> r@ == "ceil"@,
            self is Max ==> r@ == "max"@,
            self is Min ==> r@ == "min"@,
            self is And ==> r@ == "and"@,
            self is Or ==> r@ == "or"@,
            self is Xor ==> r@ == "xor"@,
            self is LeftShift ==> r@ == "left_shift"@,
            self is RightShift ==> r@ == "right_shift"@,
            self is Remove ==> r@ == "remove"@,
            self is RemoveIndex ==> r@ == "remove_index"@,
            self is RemoveKey ==> r@ == "remove_key"@,
            self is Pop ==> r@ == "pop"@,
            self is Union ==> r@ == "union"@,
            self is Update ==> r@ == "update"@,
    {
        match self {
            DataStorageOperation::Replace(_) => "replace",
            DataStorageOperation::Default => "default",
            DataStorageOperation::Add(_) => "add",
            DataStorageOperation::Append(_) => "append",
            DataStorageOperation::Mul(_) => "mul",
            DataStorageOperation::Pow(_) => "pow",
            DataStorageOperation::Mod(_) => "mod",
            DataStorageOperation::Floor => "floor",
            DataStorageOperation::Ceil => "ceil",
            DataStorageOperation::Max(_) => "max",
            DataStorageOperation::Min(_) => "min",
            DataStorageOperation::And(_) => "and",
            DataStorageOperation::Or(_) => "or",
            DataStorageOperation::Xor(_) => "xor",
            DataStorageOperation::LeftShift(_) => "left_shift",
            DataStorageOperation::RightShift(_) => "right_shift",
            DataStorageOperation::Remove(_) => "remove",
            DataStorageOperation::RemoveIndex(_) => "remove_index",
            DataStorageOperation::RemoveKey(_) => "remove_key",
            DataStorageOperation::Pop(_) => "pop",
            DataStorageOperation::Union(_) => "union",
            DataStorageOperation::Update(_) => "update",
        }
    }
}

/// Subscribes to changes of keys of the data store.
#[derive(Debug)]
pub struct SetNotify {
    pub keys: Vec<String>,
}

/// A point in time, as seconds and nanoseconds since the Unix epoch.
#[derive(Debug, Clone, Copy, PartialEq, Eq, Structural)]
pub struct Timestamp {
    pub secs: i64,
    pub nanos: u32,
}

/// The payload of a death link.
#[derive(Debug)]
pub struct DeathLink {
    pub time: Timestamp,
    pub cause: Option<String>,
    pub source: String,
}

/// What a bounce carries: a death link, or any JSON value.
#[derive(Debug)]
pub enum BounceData {
    DeathLink(DeathLink),
    Generic(Option<serde_json::Value>),
}

/// A message sent through the server to other clients.
#[derive(Debug)]
pub struct Bounce {
    pub games: Option<Vec<String>>,
    pub slots: Option<Vec<u32>>,
    pub tags: Option<Vec<String>>,
    pub data: BounceData,
}

/// A message from the client to the server.
#[derive(Debug)]
pub enum ClientMessage {
    Connect(Connect),
    ConnectUpdate(ConnectUpdate),
    Sync,
    LocationChecks(LocationChecks),
    LocationScouts(LocationScouts),
    UpdateHint(UpdateHint),
    StatusUpdate(StatusUpdate),
    Say(Say),
    GetDataPackage(GetDataPackage),
    Bounce(Bounce),
    Get(Get),
    SetRequest(SetRequest),
    SetNotify(SetNotify),
}

// Responses

/// What the server says about the room when a client connects.
#[derive(Debug)]
pub struct RoomInfo {
    pub version: NetworkVersion,
    pub generator_version: NetworkVersion,
    pub tags: Vec<String>,
    pub password_required: bool,
    pub permissions: PermissionMap,
    pub hint_cost: u8,
    pub location_check_points: u64,
    pub games: Vec<String>,
    pub datapackage_checksums: Vec<(String, String)>,
    pub seed_name: String,
}

/// The server refused the connection, for the reasons given.
#[derive(Debug)]
pub struct ConnectionRefused {
    pub errors: Vec<String>,
}

/// The server accepted the connection.
#[derive(Debug)]
pub struct Connected {
    pub team: u32,
    pub slot: u32,
    pub players: Vec<NetworkPlayer>,
    pub missing_locations: Vec<i64>,
    pub checked_locations: Vec<i64>,
    pub slot_data: serde_json::Value,
    pub slot_info: Vec<(u32, NetworkSlot)>,
    pub hint_points: u64,
}

/// Items that the player received, starting at position `index` of the
/// player's list of all items ever received.
#[derive(Debug)]
pub struct ReceivedItems {
    pub index: u64,
    pub items: Vec<NetworkItem>,
}

/// The answer to a location scout.
#[derive(Debug)]
pub struct LocationInfo {
    pub locations: Vec<NetworkItem>,
}

/// Changes to the room; absent fields did not change.
#[derive(Debug)]
pub struct RoomUpdate {
    pub tags: Option<Vec<String>>,
    pub permissions: Option<PermissionMap>,
    pub hint_cost: Option<u8>,
    pub location_check_points: Option<u64>,
    pub hint_points: Option<u64>,
    pub players: Option<Vec<NetworkPlayer>>,
    pub checked_locations: Option<Vec<i64>>,
}

/// A plain text message.
#[derive(Debug)]
pub struct Print {
    pub text: String,
}

/// A rich text message, made of typed parts.
#[derive(Debug)]
pub struct NetworkPrint {
    /// The kind of message, such as `ItemSend` or `Chat`, where given.
    pub kind: Option<String>,
    pub data: Vec<NetworkText>,
}

impl NetworkPrint {
    /// The parts of the message.
    pub fn data(&self) -> (r: &Vec<NetworkText>)
        ensures
            r == &self.data,
    {
        &self.data
    }
}

/// One part of a rich text message, before player, item and location IDs are
/// looked up.
#[derive(Debug)]
#[allow(inconsistent_fields)]
pub enum NetworkText {
    PlayerId { id: u32 },
    PlayerName { text: String },
    ItemId { id: i64, player: u32, flags: NetworkItemFlags },
    LocationId { id: i64, player: u32 },
    EntranceName { text: String },
    Color { text: String, color: TextColor },
    Text { text: String },
}

/// The colors and styles of rich text.
#[derive(Debug, Clone, Copy, PartialEq, Eq, Structural)]
pub enum TextColor {
    Bold,
    Underline,
    Black,
    Red,
    Green,
    Yellow,
    Blue,
    Magenta,
    Cyan,
    White,
    BlackBg,
    RedBg,
    GreenBg,
    YellowBg,
    BlueBg,
    MagentaBg,
    CyanBg,
    WhiteBg,
}

/// The data package: game data by game name.
#[derive(Debug)]
pub struct DataPackage {
    pub data: DataPackageObject,
}

/// Game data by game name.
#[derive(Debug)]
pub struct DataPackageObject {
    pub games: Vec<(String, GameData)>,
}

/// The items and locations of one game, and the checksum of this data.
#[derive(Debug)]
pub struct GameData {
    pub item_name_to_id: Vec<(String, i64)>,
    pub location_name_to_id: Vec<(String, i64)>,
    pub checksum: String,
}

/// A bounce delivered by the server.
#[derive(Debug)]
pub struct Bounced {
    pub games: Option<Vec<String>>,
    pub slots: Option<Vec<u32>>,
    pub tags: Option<Vec<String>>,
    pub data: BounceData,
}

/// The server could not handle a packet of this client.
#[derive(Debug)]
pub struct InvalidPacket {
    pub packet_type: String,
    pub original_cmd: Option<String>,
    pub text: String,
}

/// The answer to a data store read.
#[derive(Debug)]
pub struct Retrieved {
    pub keys: serde_json::Value,
}

/// A key of the data store was written.
#[derive(Debug)]
pub struct SetReply {
    pub key: String,
    pub value: serde_json::Value,
    pub original_value: Option<serde_json::Value>,
    pub slot: u32,
}

/// A message from the server to the client.
#[derive(Debug)]
pub enum ServerMessage {
    RoomInfo(RoomInfo),
    ConnectionRefused(ConnectionRefused),
    Connected(Connected),
    ReceivedItems(ReceivedItems),
    LocationInfo(LocationInfo),
    RoomUpdate(RoomUpdate),
    Print(Print),
    RichPrint(NetworkPrint),
    DataPackage(DataPackage),
    Bounced(Bounced),
    InvalidPacket(InvalidPacket),
    Retrieved(Retrieved),
    SetReply(SetReply),
}

/// The wire tag of each kind of server message.
pub open spec fn message_tag(m: ServerMessage) -> Seq<char> {
    match m {
        ServerMessage::RoomInfo(_) => "RoomInfo"@,
        ServerMessage::ConnectionRefused(_) => "ConnectionRefused"@,
        ServerMessage::Connected(_) => "Connected"@,
        ServerMessage::ReceivedItems(_) => "ReceivedItems"@,
        ServerMessage::LocationInfo(_) => "LocationInfo"@,
        ServerMessage::RoomUpdate(_) => "RoomUpdate"@,
        ServerMessage::Print(_) => "Print"@,
        ServerMessage::RichPrint(_) => "PrintJSON"@,
        ServerMessage::DataPackage(_) => "DataPackage"@,
        ServerMessage::Bounced(_) => "Bounced"@,
        ServerMessage::InvalidPacket(_) => "InvalidPacket"@,
        ServerMessage::Retrieved(_) => "Retrieved"@,
        ServerMessage::SetReply(_) => "SetReply"@,
    }
}

impl ServerMessage {
    /// The message's wire tag.
    pub fn message_type(&self) -> (r: &'static str)
        ensures
            r@ == message_tag(*self),
    {
        match self {
            ServerMessage::RoomInfo(_) => "RoomInfo",
            ServerMessage::ConnectionRefused(_) => "ConnectionRefused",
            ServerMessage::Connected(_) => "Connected",
            ServerMessage::ReceivedItems(_) => "ReceivedItems",
            ServerMessage::LocationInfo(_) => "LocationInfo",
            ServerMessage::RoomUpdate(_) => "RoomUpdate",
            ServerMessage::Print(_) => "Print",
            ServerMessage::RichPrint(_) => "PrintJSON",
            ServerMessage::DataPackage(_) => "DataPackage",
            ServerMessage::Bounced(_) => "Bounced",
            ServerMessage::InvalidPacket(_) => "InvalidPacket",
            ServerMessage::Retrieved(_) => "Retrieved",
            ServerMessage::SetReply(_) => "SetReply",
        }
    }
}

} // verus!
