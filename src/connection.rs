use std::collections::VecDeque;

use vstd::prelude::*;

use crate::client::{client_updated, recoverable_input, session_error, Client};
use crate::roster::valid_session;
use crate::connection_options::{item_handling_bits, ConnectionOptions};
use crate::error::{fatal, names_connection_error, ConnectionError, Error, ProtocolError};
use crate::event::Event;
use crate::protocol::{
    message_tag, network_version, ClientMessage, Connect, DataPackageObject, GetDataPackage, RoomInfo,
    ServerMessage,
};

verus! {

/// The kind of a connection state, without its data.
#[derive(Debug, Clone, Copy, PartialEq, Eq, Structural)]
pub enum ConnectionStateType {
    Connecting,
    Connected,
    Disconnected,
}

/// The order in which connection states follow each other.
pub open spec fn state_rank(t: ConnectionStateType) -> int {
    match t {
        ConnectionStateType::Connecting => 0,
        ConnectionStateType::Connected => 1,
        ConnectionStateType::Disconnected => 2,
    }
}

/// A change from one connection state to a later one.
#[derive(Debug, Clone, Copy, PartialEq, Eq, Structural)]
pub struct ConnectionStateTransition {
    pub from: ConnectionStateType,
    pub to: ConnectionStateType,
}

/// How the host runs the WebSocket: on its own thread with non-blocking I/O,
/// on a worker thread, or whichever suits the platform.
#[derive(Debug, Clone, Copy, PartialEq, Eq, Structural, Default)]
pub enum SocketMode {
    NonBlocking,
    Threaded,
    #[default]
    Auto,
}

/// Where the handshake stands.
#[derive(Debug)]
pub enum HandshakeStep {
    /// Waiting for the server's `RoomInfo`.
    AwaitRoomInfo,
    /// `GetDataPackage` was sent; waiting for the `DataPackage`.
    AwaitDataPackage(RoomInfo),
    /// `Connect` was sent; waiting for `Connected` or `ConnectionRefused`.
    AwaitConnected(RoomInfo, DataPackageObject),
}

/// The wire tag of the message each handshake step waits for.
pub open spec fn expected_tag(step: HandshakeStep) -> Seq<char> {
    match step {
        HandshakeStep::AwaitRoomInfo => "RoomInfo"@,
        HandshakeStep::AwaitDataPackage(_) => "DataPackage"@,
        HandshakeStep::AwaitConnected(_, _) => "Connected"@,
    }
}

/// A connection whose handshake is under way.
#[derive(Debug)]
pub struct Connecting {
    /// The game the player plays.
    pub game: String,
    /// The `Connect` message, until it is sent.
    pub connect: Option<Connect>,
    pub step: HandshakeStep,
    /// Server messages, or transport errors, not yet handled.
    pub inbox: VecDeque<Result<ServerMessage, Error>>,
    /// Messages to send to the server, oldest first.
    pub outbox: Vec<ClientMessage>,
}

/// What one handshake message led to.
pub enum Handshake {
    /// The handshake goes on.
    Continue(Connecting),
    /// The session is established.
    Done(Client),
    /// The handshake failed.
    Failed(Error),
}

/// The state of a connection.
pub enum ConnectionState {
    Connecting(Connecting),
    Connected(Client),
    Disconnected(Error),
}

/// The kind of a connection state.
pub open spec fn state_type_of(s: ConnectionState) -> ConnectionStateType {
    match s {
        ConnectionState::Connecting(_) => ConnectionStateType::Connecting,
        ConnectionState::Connected(_) => ConnectionStateType::Connected,
        ConnectionState::Disconnected(_) => ConnectionStateType::Disconnected,
    }
}

impl ConnectionState {
    /// The kind of this state.
    pub fn state_type(&self) -> (r: ConnectionStateType)
        ensures
            r == state_type_of(*self),
    {
        match self {
            ConnectionState::Connecting(_) => ConnectionStateType::Connecting,
            ConnectionState::Connected(_) => ConnectionStateType::Connected,
            ConnectionState::Disconnected(_) => ConnectionStateType::Disconnected,
        }
    }

    /// Whether the state's data is consistent.
    pub open spec fn wf(&self) -> bool {
        match self {
            ConnectionState::Connected(c) => c.wf(),
            _ => true,
        }
    }
}

/// What handing `input` to the handshake `hs` leads to.
pub open spec fn advanced(hs: Connecting, input: Result<ServerMessage, Error>, r: Handshake) -> bool {
    match input {
        Err(e) => r == Handshake::Failed(e),
        Ok(ServerMessage::RoomInfo(ri)) => match hs.step {
            HandshakeStep::AwaitRoomInfo => r matches Handshake::Continue(next) && next.step == HandshakeStep::AwaitDataPackage(ri)
                && next.outbox@ == hs.outbox@.push(ClientMessage::GetDataPackage(GetDataPackage { games: None }))
                && next.inbox == hs.inbox && next.connect == hs.connect && next.game == hs.game,
            _ => r matches Handshake::Failed(Error::ProtocolError(ProtocolError::UnexpectedResponse { actual, expected }))
                && actual@ == "RoomInfo"@ && expected@ == expected_tag(hs.step),
        },
        Ok(ServerMessage::DataPackage(dp)) => match hs.step {
            HandshakeStep::AwaitDataPackage(ri) => r matches Handshake::Continue(next)
                && next.step == HandshakeStep::AwaitConnected(ri, dp.data) && next.inbox == hs.inbox && next.connect is None
                && next.game == hs.game && (match hs.connect {
                    Some(m) => next.outbox@ == hs.outbox@.push(ClientMessage::Connect(m)),
                    None => next.outbox@ == hs.outbox@,
                }),
            _ => r matches Handshake::Failed(Error::ProtocolError(ProtocolError::UnexpectedResponse { actual, expected }))
                && actual@ == "DataPackage"@ && expected@ == expected_tag(hs.step),
        },
        Ok(ServerMessage::Connected(m)) => match hs.step {
            HandshakeStep::AwaitConnected(ri, dp) => {
                &&& (r is Done <==> valid_session(hs.game@, ri, dp, m))
                &&& r matches Handshake::Failed(e) ==> session_error(hs.game@, ri, dp, m, e)
                &&& m.players.len() == 0 ==> r == Handshake::Failed(Error::ProtocolError(ProtocolError::EmptyPlayers))
                &&& r matches Handshake::Done(c) ==> c.wf() && c.player_key == (m.team, m.slot)
                    && c.this_game_spec().name@ == hs.game@ && c.inbox@ == hs.inbox@ && c.outbox@ == hs.outbox@
                &&& (r is Done || r is Failed)
            },
            _ => r matches Handshake::Failed(Error::ProtocolError(ProtocolError::UnexpectedResponse { actual, expected }))
                && actual@ == "Connected"@ && expected@ == expected_tag(hs.step),
        },
        Ok(ServerMessage::ConnectionRefused(cr)) => match hs.step {
            HandshakeStep::AwaitConnected(_, _) => r matches Handshake::Failed(Error::ConnectionRefused(errors))
                && errors.len() == cr.errors.len() && forall|i: int|
                0 <= i < errors.len() ==> names_connection_error(cr.errors[i]@, #[trigger] errors[i]),
            _ => r matches Handshake::Failed(Error::ProtocolError(ProtocolError::UnexpectedResponse { actual, expected }))
                && actual@ == "ConnectionRefused"@ && expected@ == expected_tag(hs.step),
        },
        Ok(m) => r matches Handshake::Failed(Error::ProtocolError(ProtocolError::UnexpectedResponse { actual, expected }))
            && actual@ == message_tag(m) && expected@ == expected_tag(hs.step),
    }
}

impl Default for ConnectionState {
    /// A closed connection that never failed.
    fn default() -> (r: ConnectionState)
        ensures
            r == ConnectionState::Disconnected(Error::ClientDisconnected),
    {
        ConnectionState::Disconnected(Error::ClientDisconnected)
    }
}

impl Connecting {
    /// Handles one message of the handshake.
    ///
    /// `RoomInfo` is answered with `GetDataPackage` for all games, the
    /// `DataPackage` with `Connect`, and `Connected` builds the session.
    /// `ConnectionRefused` fails with the server's reasons; any other message
    /// fails with an unexpected response, and an error fails the handshake.
    pub fn advance(self, input: Result<ServerMessage, Error>) -> (r: Handshake)
        ensures
            advanced(self, input, r),
    {
        let Connecting { game, connect, step, inbox, outbox } = self;
        let message = match input {
            Err(e) => return Handshake::Failed(e),
            Ok(m) => m,
        };
        match (step, message) {
            (HandshakeStep::AwaitRoomInfo, ServerMessage::RoomInfo(ri)) => {
                let mut outbox = outbox;
                outbox.push(ClientMessage::GetDataPackage(GetDataPackage { games: None }));
                Handshake::Continue(Connecting { game, connect, step: HandshakeStep::AwaitDataPackage(ri), inbox, outbox })
            },
            (HandshakeStep::AwaitDataPackage(ri), ServerMessage::DataPackage(dp)) => {
                let mut outbox = outbox;
                match connect {
                    Some(m) => outbox.push(ClientMessage::Connect(m)),
                    None => {},
                }
                Handshake::Continue(Connecting {
                    game,
                    connect: None,
                    step: HandshakeStep::AwaitConnected(ri, dp.data),
                    inbox,
                    outbox,
                })
            },
            (HandshakeStep::AwaitConnected(ri, dp), ServerMessage::Connected(m)) => {
                match Client::new(game, ri, dp, m) {
                    Ok(client) => {
                        let mut client = client;
                        client.inbox = inbox;
                        client.outbox = outbox;
                        Handshake::Done(client)
                    },
                    Err(e) => Handshake::Failed(e),
                }
            },
            (HandshakeStep::AwaitConnected(_, _), ServerMessage::ConnectionRefused(cr)) => {
                let mut reasons = cr.errors;
                let ghost given = reasons@;
                let mut errors: Vec<ConnectionError> = Vec::new();
                while reasons.len() > 0
                    invariant
                        errors.len() + reasons.len() == given.len(),
                        reasons@ == given.subrange(errors.len() as int, given.len() as int),
                        forall|i: int| 0 <= i < errors.len() ==> names_connection_error(given[i]@, #[trigger] errors[i]),
                    decreases reasons.len(),
                {
                    let reason = reasons.remove(0);
                    errors.push(ConnectionError::parse(reason));
                }
                Handshake::Failed(Error::ConnectionRefused(errors))
            },
            (step, m) => {
                let actual = String::from_str(m.message_type());
                let expected = match step {
                    HandshakeStep::AwaitRoomInfo => String::from_str("RoomInfo"),
                    HandshakeStep::AwaitDataPackage(_) => String::from_str("DataPackage"),
                    HandshakeStep::AwaitConnected(_, _) => String::from_str("Connected"),
                };
                Handshake::Failed(Error::ProtocolError(ProtocolError::UnexpectedResponse { actual, expected }))
            },
        }
    }
}


/// A connection to an Archipelago server, from the handshake to its end.
///
/// The connection does no I/O. The host opens the WebSocket to `url`, hands
/// every decoded server message (or transport error) to
/// [Connection::receive], calls [Connection::update] once per frame, and sends
/// what [Connection::take_outgoing] returns.
pub struct Connection {
    pub url: String,
    pub state: ConnectionState,
}

impl Connection {
    /// Whether the connection's state is consistent.
    pub open spec fn wf(&self) -> bool {
        self.state.wf()
    }

    /// Starts connecting to the server at `url` as the player `name` of the
    /// game `game`.
    pub fn new(url: String, game: String, name: String, options: ConnectionOptions) -> (r: Connection)
        ensures
            r.wf(),
            r.url == url,
            r.state matches ConnectionState::Connecting(c) && c.step == HandshakeStep::AwaitRoomInfo
                && c.game@ == game@ && c.inbox@.len() == 0 && c.outbox@.len() == 0
                && (c.connect matches Some(m) && m.game@ == game@ && m.name == name && m.uuid@.len() == 0
                && m.password == options.password && m.items_handling == item_handling_bits(options.item_handling)
                && m.tags == options.tags && m.slot_data == options.slot_data && m.version.major == 0
                && m.version.minor == 6 && m.version.build == 0),
    {
        let ConnectionOptions { password, item_handling, tags, slot_data } = options;
        let connect = Connect {
            password,
            game: game.clone(),
            name,
            uuid: String::new(),
            version: network_version(),
            items_handling: item_handling.bits(),
            tags,
            slot_data,
        };
        Connection {
            url,
            state: ConnectionState::Connecting(Connecting {
                game,
                connect: Some(connect),
                step: HandshakeStep::AwaitRoomInfo,
                inbox: VecDeque::new(),
                outbox: Vec::new(),
            }),
        }
    }

    /// Hands over a decoded server message, or an error of the transport or
    /// of decoding. A disconnected connection drops it.
    pub fn receive(&mut self, input: Result<ServerMessage, Error>)
        requires
            old(self).wf(),
        ensures
            final(self).wf(),
            final(self).url == old(self).url,
            state_type_of(final(self).state) == state_type_of(old(self).state),
            old(self).state is Disconnected ==> *final(self) == *old(self),
    {
        match &mut self.state {
            ConnectionState::Connecting(c) => c.inbox.push_back(input),
            ConnectionState::Connected(client) => client.receive(input),
            ConnectionState::Disconnected(_) => {},
        }
    }

    /// Takes the messages waiting to be sent, oldest first.
    pub fn take_outgoing(&mut self) -> (r: Vec<ClientMessage>)
        requires
            old(self).wf(),
        ensures
            final(self).wf(),
            final(self).url == old(self).url,
            state_type_of(final(self).state) == state_type_of(old(self).state),
            match old(self).state {
                ConnectionState::Connecting(c) => r@ == c.outbox@,
                ConnectionState::Connected(c) => r@ == c.outbox@,
                ConnectionState::Disconnected(_) => r@.len() == 0,
            },
    {
        match &mut self.state {
            ConnectionState::Connecting(c) => {
                let mut out: Vec<ClientMessage> = Vec::new();
                std::mem::swap(&mut out, &mut c.outbox);
                out
            },
            ConnectionState::Connected(client) => client.take_outgoing(),
            ConnectionState::Disconnected(_) => Vec::new(),
        }
    }

    /// Moves the connection on as far as the messages handed over allow, and
    /// returns the events that came of it.
    ///
    /// States only move forward: connecting, connected, disconnected. When
    /// the session is established the first event is [Event::Connected]. A
    /// fatal error disconnects; the error is kept in the state and the last
    /// event is `Error(Elsewhere)`. Recoverable errors are reported as events
    /// and the connection stays up.
    pub fn update(&mut self) -> (r: Vec<Event>)
        requires
            old(self).wf(),
        ensures
            final(self).wf(),
            final(self).url == old(self).url,
            state_rank(state_type_of(old(self).state)) <= state_rank(state_type_of(final(self).state)),
            old(self).state is Disconnected ==> *final(self) == *old(self) && r@.len() == 0,
            (old(self).state is Connecting && final(self).state is Connected) ==> r@.len() > 0 && r@[0] == Event::Connected,
            (!(old(self).state is Disconnected) && final(self).state is Disconnected) ==> r@.len() > 0
                && r@.last() == Event::Error(Error::Elsewhere),
            final(self).state matches ConnectionState::Connected(c) ==> c.inbox@.len() == 0,
            (old(self).state matches ConnectionState::Connected(c) && forall|i: int|
                0 <= i < c.inbox@.len() ==> recoverable_input(#[trigger] c.inbox@[i])) ==> final(self).state is Connected,
            match old(self).state {
                ConnectionState::Connecting(c) => connecting_updated(c, final(self).state, r@),
                ConnectionState::Connected(c) => settled(c, final(self).state, r@),
                ConnectionState::Disconnected(_) => true,
            },
    {
        let mut state = ConnectionState::Disconnected(Error::ClientDisconnected);
        std::mem::swap(&mut state, &mut self.state);
        match state {
            ConnectionState::Disconnected(e) => {
                self.state = ConnectionState::Disconnected(e);
                Vec::new()
            },
            ConnectionState::Connecting(c) => {
                let ghost c0 = c;
                let mut c = c;
                let ghost mut steps: Seq<Connecting> = seq![c0];
                let ghost mut mids: Seq<Connecting> = Seq::empty();
                loop
                    invariant
                        self.url == old(self).url,
                        old(self).state == ConnectionState::Connecting(c0),
                        hs_run(c0, steps, mids, mids.len() as int),
                        steps.last() == c,
                        c.inbox@ == c0.inbox@.skip(mids.len() as int),
                    decreases c.inbox@.len(),
                {
                    let ghost n = mids.len() as int;
                    let ghost before = c.inbox@;
                    let input = match c.inbox.pop_front() {
                        Some(input) => input,
                        None => {
                            proof {
                                assert(before.len() == 0);
                                assert(n == c0.inbox@.len());
                            }
                            self.state = ConnectionState::Connecting(c);
                            let r: Vec<Event> = Vec::new();
                            proof {
                                assert(r@ =~= Seq::<Event>::empty());
                                assert(hs_run(c0, steps, mids, n));
                                assert(steps[n] == steps.last());
                                assert(connecting_updated(c0, self.state, r@));
                            }
                            return r;
                        },
                    };
                    let ghost m = c;
                    proof {
                        assert(before[0] == c0.inbox@[n]);
                        assert(m.inbox@ =~= c0.inbox@.skip(n + 1));
                    }
                    let outcome = c.advance(input);
                    let ghost out = outcome;
                    match outcome {
                        Handshake::Continue(next) => {
                            proof {
                                let steps2 = steps.push(next);
                                let mids2 = mids.push(m);
                                assert forall|i: int| 0 <= i < mids2.len() implies hs_step(c0, steps2, mids2, i) by {
                                    if i < n {
                                        assert(hs_step(c0, steps, mids, i));
                                        assert(steps2[i] == steps[i] && steps2[i + 1] == steps[i + 1] && mids2[i] == mids[i]);
                                    } else {
                                        assert(steps2[i] == steps.last());
                                    }
                                }
                                steps = steps2;
                                mids = mids2;
                            }
                            c = next;
                        },
                        Handshake::Done(client) => {
                            let mut client = client;
                            let ghost cl = client;
                            let later = client.update();
                            let ghost evs = later@;
                            let mut events: Vec<Event> = Vec::new();
                            events.push(Event::Connected);
                            let mut later = later;
                            let fatal_error = take_fatal(&mut later);
                            append(&mut events, later);
                            match fatal_error {
                                Some(e) => {
                                    self.state = ConnectionState::Disconnected(e);
                                    events.push(Event::Error(Error::Elsewhere));
                                },
                                None => {
                                    self.state = ConnectionState::Connected(client);
                                },
                            }
                            proof {
                                let rest = events@.drop_first();
                                assert(events@ =~= seq![Event::Connected] + rest);
                                assert(settled(cl, self.state, rest)) by {
                                    assert(client_updated(cl, client, evs));
                                    if evs.len() > 0 && (evs.last() matches Event::Error(e) && fatal(e)) {
                                        assert(rest =~= evs.drop_last().push(Event::Error(Error::Elsewhere)));
                                    } else {
                                        assert(rest =~= evs);
                                    }
                                }
                                assert(advanced(m, c0.inbox@[n], out));
                                assert(hs_run(c0, steps, mids, n));
                                assert(steps[n] == steps.last());
                                assert(m == (Connecting { inbox: m.inbox, ..steps[n] }));
                                assert(connecting_updated(c0, self.state, events@));
                            }
                            return events;
                        },
                        Handshake::Failed(e) => {
                            self.state = ConnectionState::Disconnected(e);
                            let mut events: Vec<Event> = Vec::new();
                            events.push(Event::Error(Error::Elsewhere));
                            proof {
                                assert(events@ =~= seq![Event::Error(Error::Elsewhere)]);
                                assert(advanced(m, c0.inbox@[n], out));
                                assert(hs_run(c0, steps, mids, n));
                                assert(steps[n] == steps.last());
                                assert(m == (Connecting { inbox: m.inbox, ..steps[n] }));
                                assert(connecting_updated(c0, self.state, events@));
                            }
                            return events;
                        },
                    }
                }
            },
            ConnectionState::Connected(client) => {
                let mut client = client;
                let ghost cl = client;
                let mut events = client.update();
                let ghost evs = events@;
                match take_fatal(&mut events) {
                    Some(e) => {
                        self.state = ConnectionState::Disconnected(e);
                        events.push(Event::Error(Error::Elsewhere));
                    },
                    None => {
                        self.state = ConnectionState::Connected(client);
                    },
                }
                proof {
                    assert(client_updated(cl, client, evs));
                    if evs.len() > 0 && (evs.last() matches Event::Error(e) && fatal(e)) {
                        assert(events@ =~= evs.drop_last().push(Event::Error(Error::Elsewhere)));
                    } else {
                        assert(events@ =~= evs);
                    }
                }
                events
            },
        }
    }

    /// The current state.
    pub fn state(&self) -> (r: &ConnectionState)
        ensures
            r == &self.state,
    {
        &self.state
    }

    /// The current state, for changes.
    pub fn state_mut(&mut self) -> (r: &mut ConnectionState)
        ensures
            *r == old(self).state,
            final(self).state == *final(r),
            final(self).url == old(self).url,
    {
        &mut self.state
    }

    /// The kind of the current state.
    pub fn state_type(&self) -> (r: ConnectionStateType)
        ensures
            r == state_type_of(self.state),
    {
        self.state.state_type()
    }

    /// Whether the session is established.
    pub fn is_connected(&self) -> (r: bool)
        ensures
            r == self.state is Connected,
    {
        match &self.state {
            ConnectionState::Connected(_) => true,
            _ => false,
        }
    }

    /// Whether the connection has ended.
    pub fn is_disconnected(&self) -> (r: bool)
        ensures
            r == self.state is Disconnected,
    {
        match &self.state {
            ConnectionState::Disconnected(_) => true,
            _ => false,
        }
    }

    /// The error that ended the connection, if it has ended.
    pub fn err(&self) -> (r: Option<&Error>)
        ensures
            match self.state {
                ConnectionState::Disconnected(e) => r == Some(&e),
                _ => r is None,
            },
    {
        match &self.state {
            ConnectionState::Disconnected(e) => Some(e),
            _ => None,
        }
    }

    /// The error that ended the connection, or
    /// [Error::ClientDisconnected] while it has not ended.
    pub fn into_err(self) -> (r: Error)
        ensures
            match self.state {
                ConnectionState::Disconnected(e) => r == e,
                _ => r == Error::ClientDisconnected,
            },
    {
        match self.state {
            ConnectionState::Disconnected(e) => e,
            _ => Error::ClientDisconnected,
        }
    }

    /// The session, once it is established, for requests.
    pub fn client_mut(&mut self) -> (r: Option<&mut Client>)
        ensures
            old(self).state is Connected <==> r is Some,
            r matches Some(c) ==> old(self).state == ConnectionState::Connected(*c)
                && final(self).state == ConnectionState::Connected(*final(c)) && final(self).url == old(self).url,
            r is None ==> *final(self) == *old(self),
    {
        match &mut self.state {
            ConnectionState::Connected(c) => Some(c),
            _ => None,
        }
    }

    /// The session, once it is established.
    pub fn client(&self) -> (r: Option<&Client>)
        ensures
            match self.state {
                ConnectionState::Connected(c) => r == Some(&c),
                _ => r is None,
            },
    {
        match &self.state {
            ConnectionState::Connected(c) => Some(c),
            _ => None,
        }
    }
}

/// Removes the last event when it is a fatal error, and returns that error.
fn take_fatal(events: &mut Vec<Event>) -> (r: Option<Error>)
    ensures
        match r {
            Some(e) => fatal(e) && old(events)@.len() > 0 && old(events)@.last() == Event::Error(e)
                && final(events)@ == old(events)@.drop_last(),
            None => final(events)@ == old(events)@ && !(old(events)@.len() > 0
                && (old(events)@.last() matches Event::Error(e) && fatal(e))),
        },
{
    if events.len() == 0 {
        return None;
    }
    let last = events.pop().unwrap();
    match last {
        Event::Error(e) => {
            if e.is_fatal() {
                Some(e)
            } else {
                events.push(Event::Error(e));
                assert(events@ =~= old(events)@);
                None
            }
        },
        other => {
            events.push(other);
            assert(events@ =~= old(events)@);
            None
        },
    }
}

/// Moves every event of `more` to the end of `events`, in order.
fn append(events: &mut Vec<Event>, more: Vec<Event>)
    ensures
        final(events)@ == old(events)@ + more@,
{
    let mut more = more;
    events.append(&mut more);
}


/// Step `i` of the handshake of `start`: the state `steps[i]` hands over its
/// first message, becoming `mids[i]`, and the handshake goes on as
/// `steps[i + 1]`.
pub open spec fn hs_step(start: Connecting, steps: Seq<Connecting>, mids: Seq<Connecting>, i: int) -> bool {
    &&& mids[i] == (Connecting { inbox: mids[i].inbox, ..steps[i] })
    &&& mids[i].inbox@ == start.inbox@.skip(i + 1)
    &&& advanced(mids[i], start.inbox@[i], Handshake::Continue(steps[i + 1]))
}

/// Whether `steps` and `mids` record the first `n` messages of the inbox of
/// `start`, each of which let the handshake go on.
pub open spec fn hs_run(start: Connecting, steps: Seq<Connecting>, mids: Seq<Connecting>, n: int) -> bool {
    &&& 0 <= n <= start.inbox@.len()
    &&& steps.len() == n + 1
    &&& mids.len() == n
    &&& steps[0] == start
    &&& forall|i: int| 0 <= i < n ==> hs_step(start, steps, mids, i)
}

/// What updating an established session `c` gives: its events, and the state
/// Connected; or, when the last event is a fatal error, the state
/// Disconnected with that error, which the events report as `Elsewhere`.
pub open spec fn settled(c: Client, state: ConnectionState, events: Seq<Event>) -> bool {
    exists|c2: Client, evs: Seq<Event>|
        #[trigger] client_updated(c, c2, evs) && if evs.len() > 0 && (evs.last() matches Event::Error(e) && fatal(e)) {
            &&& state == ConnectionState::Disconnected(evs.last()->Error_0)
            &&& events == evs.drop_last().push(Event::Error(Error::Elsewhere))
        } else {
            &&& state == ConnectionState::Connected(c2)
            &&& events == evs
        }
}

/// What updating the handshake `start` gives: its inbox is handed to the
/// handshake in order. When every message lets it go on, the handshake waits
/// for more and there are no events. A failure disconnects with that error,
/// and the only event is `Error(Elsewhere)`. An established session is
/// updated at once, and `Connected` comes before its events.
pub open spec fn connecting_updated(start: Connecting, state: ConnectionState, events: Seq<Event>) -> bool {
    exists|steps: Seq<Connecting>, mids: Seq<Connecting>, n: int|
        #[trigger] hs_run(start, steps, mids, n) && {
            ||| n == start.inbox@.len() && events.len() == 0 && (state matches ConnectionState::Connecting(w)
                && w == (Connecting { inbox: w.inbox, ..steps[n] }) && w.inbox@.len() == 0)
            ||| n < start.inbox@.len() && exists|m: Connecting, out: Handshake| {
                &&& m == (Connecting { inbox: m.inbox, ..steps[n] })
                &&& m.inbox@ == start.inbox@.skip(n + 1)
                &&& #[trigger] advanced(m, start.inbox@[n], out)
                &&& match out {
                    Handshake::Failed(e) => state == ConnectionState::Disconnected(e)
                        && events == seq![Event::Error(Error::Elsewhere)],
                    Handshake::Done(cl) => events.len() > 0 && events[0] == Event::Connected
                        && settled(cl, state, events.drop_first()),
                    Handshake::Continue(_) => false,
                }
            }
        }
}

} // verus!
