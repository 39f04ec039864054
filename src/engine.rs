//! The relay session engine: a state machine from commands and transport
//! events to a new state and a list of actions.
//!
//! The engine performs no I/O. Whoever drives it opens and closes the
//! channels, writes the bytes and hands the events over, as each returned
//! `Action` says, and reports back what the transport did.

use vstd::prelude::*;
use vstd::utf8::*;
use crate::codec::{ByteUtils, be_at};
use crate::directory::{PeerDirectory, distinct_members, identity_of, numeric_of, lemma_directory_consistent};
use crate::envelope::{
    connect_payload,
    envelope,
    handshake,
    inbound,
    inbound_event,
    outbound,
    outbound_envelope,
    relay_id,
};
use crate::framing::{FrameBuffer, bodies_view, frame, frame_of, split_frames};
use crate::messages::{CommandModel, EventModel, NetworkCommand, NetworkEvent};
use crate::protocol::{
    HostRequest,
    JoinRequest,
    PacketParser,
    PacketType,
    PacketBuilder,
    PeerInfo,
    WireError,
    connect_request,
    connect_response,
    host_request,
    join_request,
    peer_list,
    peers_view,
};

verus! {

/// Where the session stands with the relay.
#[derive(Debug, Clone, Copy, PartialEq, Eq, Structural)]
pub enum RelayState {
    Disconnected,
    Connecting,
    Connected,
    Hosting,
    Joined,
}

/// The two states in which the session is in a room.
pub open spec fn in_room(s: RelayState) -> bool {
    s is Hosting || s is Joined
}

/// What the session waits for from the transport.
pub enum Pending {
    /// Nothing.
    Idle,
    /// The control connection, then the answer to the connect request.
    Connect,
    /// The answer to a host request.
    Host(HostRequest),
    /// The answer to a join request.
    Join(JoinRequest),
    /// The data channel of the room that `room` enters, under `online_id`,
    /// with `peers` as its members.
    OpenData { room: RelayState, online_id: String, peers: Vec<PeerInfo> },
}

/// What the session waits for, over plain values.
pub enum PendingModel {
    Idle,
    Connect,
    Host(Seq<char>),
    Join(Seq<char>, Seq<char>),
    OpenData(RelayState, Seq<char>, Seq<(Seq<char>, u32)>),
}

impl View for Pending {
    type V = PendingModel;

    open spec fn view(&self) -> PendingModel {
        match self {
            Pending::Idle => PendingModel::Idle,
            Pending::Connect => PendingModel::Connect,
            Pending::Host(r) => PendingModel::Host(r.online_id@),
            Pending::Join(r) => PendingModel::Join(r.joiner_id@, r.host_id@),
            Pending::OpenData { room, online_id, peers } => PendingModel::OpenData(
                *room,
                online_id@,
                peers_view(peers@),
            ),
        }
    }
}

/// What the driver of the engine is asked to do.
#[derive(Debug)]
pub enum Action {
    /// Open the control connection to `host:port`.
    OpenControl { host: String, port: u16 },
    /// Write `bytes` on the control connection.
    SendControl { bytes: Vec<u8> },
    /// Open the data channel to `host:port`.
    OpenData { host: String, port: u16 },
    /// Send `bytes` as one datagram on the data channel.
    SendDatagram { bytes: Vec<u8> },
    /// Close both channels.
    CloseChannels,
    /// Close both channels and stop the engine's loop.
    Shutdown,
    /// Hand `event` to the caller.
    Emit { event: NetworkEvent },
}

/// An action, over plain values.
pub enum ActionModel {
    OpenControl(Seq<char>, u16),
    SendControl(Seq<u8>),
    OpenData(Seq<char>, u16),
    SendDatagram(Seq<u8>),
    CloseChannels,
    Shutdown,
    Emit(EventModel),
}

impl View for Action {
    type V = ActionModel;

    open spec fn view(&self) -> ActionModel {
        match self {
            Action::OpenControl { host, port } => ActionModel::OpenControl(host@, *port),
            Action::SendControl { bytes } => ActionModel::SendControl(bytes@),
            Action::OpenData { host, port } => ActionModel::OpenData(host@, *port),
            Action::SendDatagram { bytes } => ActionModel::SendDatagram(bytes@),
            Action::CloseChannels => ActionModel::CloseChannels,
            Action::Shutdown => ActionModel::Shutdown,
            Action::Emit { event } => ActionModel::Emit(event@),
        }
    }
}

/// The views of a list of actions.
pub open spec fn actions_view(v: Seq<Action>) -> Seq<ActionModel> {
    v.map_values(|a: Action| a@)
}

/// The whole state of a session, over plain values.
pub struct SessionModel {
    pub state: RelayState,
    pub pending: PendingModel,
    pub relay_host: Seq<char>,
    pub relay_port: u16,
    /// The identity that the relay assigned on connect.
    pub online_id: Seq<char>,
    /// The identity under which the session entered its room.
    pub room_id: Seq<char>,
    /// Bytes of the control channel that do not yet form a whole frame.
    pub control: Seq<u8>,
    pub directory: Seq<(Seq<char>, u32)>,
}

/// A host request for `id` fits in one frame.
pub open spec fn host_fits(id: Seq<char>) -> bool {
    encode_utf8(id).len() + 8 <= u32::MAX
}

/// A join request for `id` and `host_id` fits in one frame.
pub open spec fn join_fits(id: Seq<char>, host_id: Seq<char>) -> bool {
    encode_utf8(id).len() + encode_utf8(host_id).len() + 12 <= u32::MAX
}

/// The invariant of a session: what it waits for agrees with its state.
pub open spec fn wf_model(s: SessionModel) -> bool {
    match s.pending {
        PendingModel::Idle => !(s.state is Connecting),
        PendingModel::Connect => s.state is Connecting,
        PendingModel::Host(id) => s.state is Connected && host_fits(id),
        PendingModel::Join(id, host_id) => s.state is Connected && join_fits(id, host_id),
        PendingModel::OpenData(room, id, _) => s.state is Connected && in_room(room)
            && encode_utf8(id).len() <= u32::MAX,
    }
}

/// A session that has not connected yet.
pub open spec fn initial_model() -> SessionModel {
    SessionModel {
        state: RelayState::Disconnected,
        pending: PendingModel::Idle,
        relay_host: Seq::empty(),
        relay_port: 0,
        online_id: Seq::empty(),
        room_id: Seq::empty(),
        control: Seq::empty(),
        directory: Seq::empty(),
    }
}

/// The text of the `Error` event for a failed control exchange.
pub open spec fn wire_message(e: WireError) -> Seq<char> {
    match e {
        WireError::TruncatedPacket => "truncated packet"@,
        WireError::MalformedPayload => "malformed payload"@,
        WireError::ProtocolViolation { .. } => "unexpected packet type"@,
        WireError::ConnectionClosed => "control connection closed"@,
    }
}

/// The text of the `Error` event for an identity too long to send.
pub open spec fn oversized_message() -> Seq<char> {
    "identity too long"@
}

/// The text of the `Error` event when the relay port leaves no data port after it.
pub open spec fn no_data_port_message() -> Seq<char> {
    "relay port leaves no data port"@
}

/// The session after it drops back to `Disconnected`.
pub open spec fn reset(s: SessionModel) -> SessionModel {
    SessionModel {
        state: RelayState::Disconnected,
        pending: PendingModel::Idle,
        control: Seq::empty(),
        directory: Seq::empty(),
        ..s
    }
}

/// A failed control exchange: back to `Disconnected`, channels closed, the
/// caller told.
pub open spec fn failure_step(s: SessionModel, message: Seq<char>) -> (
    SessionModel,
    Seq<ActionModel>,
) {
    (reset(s), seq![ActionModel::CloseChannels, ActionModel::Emit(EventModel::Error(message))])
}

/// Nothing changes and nothing is done.
pub open spec fn no_step(s: SessionModel) -> (SessionModel, Seq<ActionModel>) {
    (s, Seq::empty())
}

/// The step for a command.
pub open spec fn after_command(s: SessionModel, c: CommandModel) -> (
    SessionModel,
    Seq<ActionModel>,
) {
    match c {
        CommandModel::ConnectToRelay(host, port) => if s.state is Disconnected {
            (
                SessionModel {
                    state: RelayState::Connecting,
                    pending: PendingModel::Connect,
                    relay_host: host,
                    relay_port: port,
                    control: Seq::empty(),
                    ..s
                },
                seq![ActionModel::OpenControl(host, port)],
            )
        } else {
            no_step(s)
        },
        CommandModel::Host(id) => if s.state is Connected && s.pending is Idle {
            if host_fits(id) {
                (
                    SessionModel { pending: PendingModel::Host(id), ..s },
                    seq![ActionModel::SendControl(frame_of(host_request(id)))],
                )
            } else {
                (s, seq![ActionModel::Emit(EventModel::Error(oversized_message()))])
            }
        } else {
            no_step(s)
        },
        CommandModel::Join(id, host_id) => if s.state is Connected && s.pending is Idle {
            if join_fits(id, host_id) {
                (
                    SessionModel { pending: PendingModel::Join(id, host_id), ..s },
                    seq![ActionModel::SendControl(frame_of(join_request(id, host_id)))],
                )
            } else {
                (s, seq![ActionModel::Emit(EventModel::Error(oversized_message()))])
            }
        } else {
            no_step(s)
        },
        CommandModel::SendPacket(to_peer, data) => if in_room(s.state) {
            match outbound(s.room_id, to_peer, data, s.directory) {
                Some(b) => (s, seq![ActionModel::SendDatagram(b)]),
                None => no_step(s),
            }
        } else {
            no_step(s)
        },
        CommandModel::Disconnect => (reset(s), seq![ActionModel::Shutdown]),
    }
}

/// The step once the control connection is open: send the connect request.
pub open spec fn after_control_connected(s: SessionModel) -> (SessionModel, Seq<ActionModel>) {
    if s.pending is Connect {
        (s, seq![ActionModel::SendControl(frame_of(connect_request()))])
    } else {
        no_step(s)
    }
}

/// The step when the control connection could not be opened.
pub open spec fn after_connect_failed(s: SessionModel, message: Seq<char>) -> (
    SessionModel,
    Seq<ActionModel>,
) {
    if s.state is Connecting {
        failure_step(s, message)
    } else {
        no_step(s)
    }
}

/// The step when the control connection closes.
pub open spec fn after_control_closed(s: SessionModel) -> (SessionModel, Seq<ActionModel>) {
    if s.state is Disconnected {
        no_step(s)
    } else {
        failure_step(s, wire_message(WireError::ConnectionClosed))
    }
}

/// The step for the answer to a host or join request, which must carry `tag`.
pub open spec fn room_response(
    s: SessionModel,
    body: Seq<u8>,
    tag: u32,
    room: RelayState,
    id: Seq<char>,
) -> (SessionModel, Seq<ActionModel>) {
    if body.len() < 4 {
        failure_step(s, wire_message(WireError::TruncatedPacket))
    } else if be_at(body, 0) != tag {
        failure_step(s, wire_message(WireError::ProtocolViolation { tag: be_at(body, 0) }))
    } else {
        match peer_list(body) {
            Ok(p) => if s.relay_port < 65535 {
                (
                    SessionModel { pending: PendingModel::OpenData(room, id, p), ..s },
                    seq![ActionModel::OpenData(s.relay_host, (s.relay_port + 1) as u16)],
                )
            } else {
                (
                    SessionModel { pending: PendingModel::Idle, ..s },
                    seq![ActionModel::Emit(EventModel::Error(no_data_port_message()))],
                )
            },
            Err(e) => failure_step(s, wire_message(e)),
        }
    }
}

/// The step for one whole frame from the control channel.
pub open spec fn after_frame(s: SessionModel, body: Seq<u8>) -> (SessionModel, Seq<ActionModel>) {
    match s.pending {
        PendingModel::Connect => if body.len() < 4 {
            failure_step(s, wire_message(WireError::TruncatedPacket))
        } else if be_at(body, 0) != 0 {
            failure_step(s, wire_message(WireError::ProtocolViolation { tag: be_at(body, 0) }))
        } else {
            match connect_response(body) {
                Ok(id) => (
                    SessionModel {
                        state: RelayState::Connected,
                        pending: PendingModel::Idle,
                        online_id: id,
                        ..s
                    },
                    seq![ActionModel::Emit(EventModel::RelayConnected(id))],
                ),
                Err(e) => failure_step(s, wire_message(e)),
            }
        },
        PendingModel::Host(id) => room_response(s, body, 1, RelayState::Hosting, id),
        PendingModel::Join(id, _) => room_response(s, body, 2, RelayState::Joined, id),
        PendingModel::Idle => if in_room(s.state) && body.len() >= 4 && be_at(body, 0) == 3 {
            match peer_list(body) {
                Ok(p) => (
                    SessionModel { directory: p, ..s },
                    seq![ActionModel::Emit(EventModel::PeerListUpdated(p))],
                ),
                Err(_) => no_step(s),
            }
        } else {
            no_step(s)
        },
        PendingModel::OpenData(..) => no_step(s),
    }
}

/// The steps for several frames, in order.
pub open spec fn after_frames(s: SessionModel, frames: Seq<Seq<u8>>) -> (
    SessionModel,
    Seq<ActionModel>,
)
    decreases frames.len(),
{
    if frames.len() == 0 {
        no_step(s)
    } else {
        let (s1, a1) = after_frames(s, frames.drop_last());
        let (s2, a2) = after_frame(s1, frames.last());
        (s2, a1 + a2)
    }
}

/// The step for bytes received on the control channel: the whole frames
/// they complete are handled in order, the rest is held.
pub open spec fn after_control_bytes(s: SessionModel, bytes: Seq<u8>) -> (
    SessionModel,
    Seq<ActionModel>,
) {
    if s.state is Disconnected {
        no_step(s)
    } else {
        let (frames, rest) = split_frames(s.control + bytes);
        after_frames(SessionModel { control: rest, ..s }, frames)
    }
}

/// The step once the data channel is open: enter the room, send the
/// handshake, tell the caller.
pub open spec fn after_data_opened(s: SessionModel) -> (SessionModel, Seq<ActionModel>) {
    match s.pending {
        PendingModel::OpenData(room, id, p) => (
            SessionModel {
                state: room,
                pending: PendingModel::Idle,
                room_id: id,
                directory: p,
                ..s
            },
            seq![
                ActionModel::SendDatagram(envelope(encode_utf8(id), relay_id(), connect_payload())),
                ActionModel::Emit(
                    if room is Hosting {
                        EventModel::Hosting(p)
                    } else {
                        EventModel::Joined(p)
                    },
                ),
            ],
        ),
        _ => no_step(s),
    }
}

/// The step for a datagram received on the data channel: while in a room,
/// a well-formed datagram from a peer is handed to the caller; anything
/// else is dropped.
pub open spec fn after_datagram(s: SessionModel, bytes: Seq<u8>) -> (SessionModel, Seq<ActionModel>) {
    if in_room(s.state) {
        match inbound(bytes) {
            Some(e) => (s, seq![ActionModel::Emit(e)]),
            None => no_step(s),
        }
    } else {
        no_step(s)
    }
}

/// The step when the data channel could not be opened: the room is not
/// entered, the control connection stays.
pub open spec fn after_data_open_failed(s: SessionModel, message: Seq<char>) -> (
    SessionModel,
    Seq<ActionModel>,
) {
    match s.pending {
        PendingModel::OpenData(..) => (
            SessionModel { pending: PendingModel::Idle, ..s },
            seq![ActionModel::Emit(EventModel::Error(message))],
        ),
        _ => no_step(s),
    }
}

/// The relay session engine.
pub struct RelaySession {
    state: RelayState,
    pending: Pending,
    relay_host: String,
    relay_port: u16,
    online_id: String,
    room_id: String,
    control: FrameBuffer,
    directory: PeerDirectory,
}

impl View for RelaySession {
    type V = SessionModel;

    closed spec fn view(&self) -> SessionModel {
        SessionModel {
            state: self.state,
            pending: self.pending@,
            relay_host: self.relay_host@,
            relay_port: self.relay_port,
            online_id: self.online_id@,
            room_id: self.room_id@,
            control: self.control@,
            directory: self.directory@,
        }
    }
}

/// The text of the `Error` event for a failed control exchange.
fn wire_text(e: WireError) -> (r: String)
    ensures
        r@ == wire_message(e),
{
    match e {
        WireError::TruncatedPacket => "truncated packet".to_owned(),
        WireError::MalformedPayload => "malformed payload".to_owned(),
        WireError::ProtocolViolation { .. } => "unexpected packet type".to_owned(),
        WireError::ConnectionClosed => "control connection closed".to_owned(),
    }
}

/// A list of one action.
fn one_action(a: Action) -> (r: Vec<Action>)
    ensures
        actions_view(r@) == seq![a@],
{
    let mut r: Vec<Action> = Vec::new();
    r.push(a);
    assert(actions_view(r@) =~= seq![a@]);
    r
}

/// An `Error` event with `message`, as the only action.
fn error_action(message: String) -> (r: Vec<Action>)
    ensures
        actions_view(r@) == seq![ActionModel::Emit(EventModel::Error(message@))],
{
    one_action(Action::Emit { event: NetworkEvent::Error { message } })
}

impl RelaySession {
    /// The invariant of the session.
    pub open spec fn wf(&self) -> bool {
        wf_model(self@)
    }

    /// A session that has not connected yet.
    pub fn new() -> (r: RelaySession)
        ensures
            r@ == initial_model(),
            r.wf(),
    {
        RelaySession {
            state: RelayState::Disconnected,
            pending: Pending::Idle,
            relay_host: String::new(),
            relay_port: 0,
            online_id: String::new(),
            room_id: String::new(),
            control: FrameBuffer::new(),
            directory: PeerDirectory::new(),
        }
    }

    /// Where the session stands.
    pub fn state(&self) -> (r: RelayState)
        ensures
            r == self@.state,
    {
        self.state
    }

    /// The identity that the relay assigned on connect.
    pub fn online_id(&self) -> (r: &String)
        ensures
            r@ == self@.online_id,
    {
        &self.online_id
    }

    /// The members of the current room.
    pub fn directory(&self) -> (r: &PeerDirectory)
        ensures
            r@ == self@.directory,
    {
        &self.directory
    }

    fn reset(&mut self)
        ensures
            final(self)@ == reset(old(self)@),
    {
        self.state = RelayState::Disconnected;
        self.pending = Pending::Idle;
        self.control = FrameBuffer::new();
        self.directory.clear();
    }

    fn fail(&mut self, message: String) -> (r: Vec<Action>)
        ensures
            (final(self)@, actions_view(r@)) == failure_step(old(self)@, message@),
    {
        self.reset();
        let mut r: Vec<Action> = Vec::new();
        r.push(Action::CloseChannels);
        r.push(Action::Emit { event: NetworkEvent::Error { message } });
        assert(actions_view(r@) =~= seq![
            ActionModel::CloseChannels,
            ActionModel::Emit(EventModel::Error(message@)),
        ]);
        r
    }

    /// Handles a command of the caller.
    pub fn handle_command(&mut self, command: NetworkCommand) -> (r: Vec<Action>)
        requires
            old(self).wf(),
        ensures
            final(self).wf(),
            (final(self)@, actions_view(r@)) == after_command(old(self)@, command@),
    {
        match command {
            NetworkCommand::ConnectToRelay { host, port } => self.connect_to_relay(host, port),
            NetworkCommand::Host { online_id } => self.host(online_id),
            NetworkCommand::Join { online_id, host_online_id } => self.join(
                online_id,
                host_online_id,
            ),
            NetworkCommand::SendPacket { to_peer, data } => self.send_packet(to_peer, data),
            NetworkCommand::Disconnect => {
                self.reset();
                one_action(Action::Shutdown)
            },
        }
    }

    fn connect_to_relay(&mut self, host: String, port: u16) -> (r: Vec<Action>)
        requires
            old(self).wf(),
        ensures
            final(self).wf(),
            (final(self)@, actions_view(r@)) == after_command(
                old(self)@,
                CommandModel::ConnectToRelay(host@, port),
            ),
    {
        if self.state != RelayState::Disconnected {
            return Vec::new();
        }
        self.state = RelayState::Connecting;
        self.pending = Pending::Connect;
        self.relay_host = host.clone();
        self.relay_port = port;
        self.control = FrameBuffer::new();
        one_action(Action::OpenControl { host, port })
    }

    fn host(&mut self, online_id: String) -> (r: Vec<Action>)
        requires
            old(self).wf(),
        ensures
            final(self).wf(),
            (final(self)@, actions_view(r@)) == after_command(
                old(self)@,
                CommandModel::Host(online_id@),
            ),
    {
        if self.state != RelayState::Connected || !matches!(self.pending, Pending::Idle) {
            return Vec::new();
        }
        if online_id.as_str().as_bytes().len() > (u32::MAX - 8) as usize {
            return error_action("identity too long".to_owned());
        }
        let body = PacketBuilder::build_host(online_id.as_str());
        let bytes = frame(body.as_slice());
        self.pending = Pending::Host(HostRequest { online_id });
        one_action(Action::SendControl { bytes })
    }

    fn join(&mut self, online_id: String, host_online_id: String) -> (r: Vec<Action>)
        requires
            old(self).wf(),
        ensures
            final(self).wf(),
            (final(self)@, actions_view(r@)) == after_command(
                old(self)@,
                CommandModel::Join(online_id@, host_online_id@),
            ),
    {
        if self.state != RelayState::Connected || !matches!(self.pending, Pending::Idle) {
            return Vec::new();
        }
        let a = online_id.as_str().as_bytes().len();
        let b = host_online_id.as_str().as_bytes().len();
        if a > (u32::MAX - 12) as usize || b > (u32::MAX - 12) as usize - a {
            return error_action("identity too long".to_owned());
        }
        let body = PacketBuilder::build_join(online_id.as_str(), host_online_id.as_str());
        let bytes = frame(body.as_slice());
        self.pending = Pending::Join(JoinRequest { joiner_id: online_id, host_id: host_online_id });
        one_action(Action::SendControl { bytes })
    }

    fn send_packet(&mut self, to_peer: i32, data: Vec<u8>) -> (r: Vec<Action>)
        requires
            old(self).wf(),
        ensures
            final(self).wf(),
            (final(self)@, actions_view(r@)) == after_command(
                old(self)@,
                CommandModel::SendPacket(to_peer, data@),
            ),
    {
        if self.state != RelayState::Hosting && self.state != RelayState::Joined {
            return Vec::new();
        }
        match outbound_envelope(self.room_id.as_str(), to_peer, data.as_slice(), &self.directory) {
            Some(bytes) => one_action(Action::SendDatagram { bytes }),
            None => Vec::new(),
        }
    }

    /// Handles the control connection being open: sends the connect request.
    pub fn on_control_connected(&mut self) -> (r: Vec<Action>)
        requires
            old(self).wf(),
        ensures
            final(self).wf(),
            (final(self)@, actions_view(r@)) == after_control_connected(old(self)@),
    {
        if !matches!(self.pending, Pending::Connect) {
            return Vec::new();
        }
        let body = PacketBuilder::build_connect();
        let bytes = frame(body.as_slice());
        one_action(Action::SendControl { bytes })
    }

    /// Handles a failure to open the control connection.
    pub fn on_control_connect_failed(&mut self, message: String) -> (r: Vec<Action>)
        requires
            old(self).wf(),
        ensures
            final(self).wf(),
            (final(self)@, actions_view(r@)) == after_connect_failed(old(self)@, message@),
    {
        if self.state != RelayState::Connecting {
            return Vec::new();
        }
        self.fail(message)
    }

    /// Handles the end of the control connection's stream.
    pub fn on_control_closed(&mut self) -> (r: Vec<Action>)
        requires
            old(self).wf(),
        ensures
            final(self).wf(),
            (final(self)@, actions_view(r@)) == after_control_closed(old(self)@),
    {
        if self.state == RelayState::Disconnected {
            return Vec::new();
        }
        self.fail(wire_text(WireError::ConnectionClosed))
    }

    fn on_room_response(&mut self, body: &[u8], expected: PacketType, room: RelayState, online_id: String) -> (r: Vec<Action>)
        requires
            old(self).wf(),
            old(self)@.state is Connected,
            expected.spec_tag() == 1 || expected.spec_tag() == 2,
            in_room(room),
            encode_utf8(online_id@).len() <= u32::MAX,
        ensures
            final(self).wf(),
            (final(self)@, actions_view(r@)) == room_response(
                old(self)@,
                body@,
                expected.spec_tag(),
                room,
                online_id@,
            ),
    {
        if body.len() < 4 {
            return self.fail(wire_text(WireError::TruncatedPacket));
        }
        let tag = match ByteUtils::unpack_u32(body, 0) {
            Ok(t) => t,
            Err(_) => {
                return self.fail(wire_text(WireError::TruncatedPacket));
            },
        };
        if tag != expected.tag() {
            return self.fail(wire_text(WireError::ProtocolViolation { tag }));
        }
        match PacketParser::parse_peers(body) {
            Ok(list) => {
                if self.relay_port < 65535 {
                    let peers = list.peers;
                    self.pending = Pending::OpenData { room, online_id, peers };
                    one_action(Action::OpenData { host: self.relay_host.clone(), port: self.relay_port + 1 })
                } else {
                    self.pending = Pending::Idle;
                    error_action("relay port leaves no data port".to_owned())
                }
            },
            Err(e) => self.fail(wire_text(e)),
        }
    }

    fn on_frame(&mut self, body: &[u8]) -> (r: Vec<Action>)
        requires
            old(self).wf(),
        ensures
            final(self).wf(),
            (final(self)@, actions_view(r@)) == after_frame(old(self)@, body@),
    {
        match &self.pending {
            Pending::Connect => {
                if body.len() < 4 {
                    return self.fail(wire_text(WireError::TruncatedPacket));
                }
                let tag = match ByteUtils::unpack_u32(body, 0) {
                    Ok(t) => t,
                    Err(_) => {
                        return self.fail(wire_text(WireError::TruncatedPacket));
                    },
                };
                if tag != PacketType::ConnectToRelay.tag() {
                    return self.fail(wire_text(WireError::ProtocolViolation { tag }));
                }
                match PacketParser::parse_connect(body) {
                    Ok(response) => {
                        self.state = RelayState::Connected;
                        self.pending = Pending::Idle;
                        self.online_id = response.online_id.clone();
                        one_action(
                            Action::Emit {
                                event: NetworkEvent::RelayConnected { online_id: response.online_id },
                            },
                        )
                    },
                    Err(e) => self.fail(wire_text(e)),
                }
            },
            Pending::Host(request) => {
                let online_id = request.online_id.clone();
                self.on_room_response(body, PacketType::HostGame, RelayState::Hosting, online_id)
            },
            Pending::Join(request) => {
                let online_id = request.joiner_id.clone();
                self.on_room_response(body, PacketType::JoinGame, RelayState::Joined, online_id)
            },
            Pending::Idle => {
                if self.state != RelayState::Hosting && self.state != RelayState::Joined {
                    return Vec::new();
                }
                if body.len() < 4 {
                    return Vec::new();
                }
                let tag = match ByteUtils::unpack_u32(body, 0) {
                    Ok(t) => t,
                    Err(_) => {
                        return Vec::new();
                    },
                };
                if tag != PacketType::PeerList.tag() {
                    return Vec::new();
                }
                match PacketParser::parse_peers(body) {
                    Ok(list) => {
                        self.directory.rebuild(&list.peers);
                        one_action(
                            Action::Emit { event: NetworkEvent::PeerListUpdated { peer_list: list.peers } },
                        )
                    },
                    Err(_) => Vec::new(),
                }
            },
            Pending::OpenData { .. } => Vec::new(),
        }
    }

    /// Handles bytes received on the control channel, in pieces of any
    /// size: each whole frame that they complete is handled in order.
    pub fn on_control_bytes(&mut self, bytes: &[u8]) -> (r: Vec<Action>)
        requires
            old(self).wf(),
        ensures
            final(self).wf(),
            (final(self)@, actions_view(r@)) == after_control_bytes(old(self)@, bytes@),
    {
        if self.state == RelayState::Disconnected {
            return Vec::new();
        }
        self.control.push(bytes);
        let frames = self.control.take_frames();
        let ghost s0 = self@;
        let ghost fs = bodies_view(frames@);
        let mut actions: Vec<Action> = Vec::new();
        let mut i: usize = 0;
        proof {
            assert(fs.take(0) =~= Seq::<Seq<u8>>::empty());
            assert(actions_view(actions@) =~= Seq::<ActionModel>::empty());
        }
        while i < frames.len()
            invariant
                i <= frames@.len(),
                fs == bodies_view(frames@),
                self.wf(),
                (self@, actions_view(actions@)) == after_frames(s0, fs.take(i as int)),
            decreases frames@.len() - i,
        {
            let ghost before = actions@;
            let mut more = self.on_frame(frames[i].as_slice());
            let ghost added = more@;
            actions.append(&mut more);
            proof {
                assert(fs.take(i + 1).drop_last() == fs.take(i as int));
                assert(fs.take(i + 1).last() == frames@[i as int]@);
                assert(actions_view(before + added) =~= actions_view(before) + actions_view(added));
            }
            i += 1;
        }
        proof {
            assert(fs.take(frames@.len() as int) == fs);
        }
        actions
    }

    /// Handles the data channel being open: enters the room.
    pub fn on_data_opened(&mut self) -> (r: Vec<Action>)
        requires
            old(self).wf(),
        ensures
            final(self).wf(),
            (final(self)@, actions_view(r@)) == after_data_opened(old(self)@),
    {
        let mut p = Pending::Idle;
        std::mem::swap(&mut self.pending, &mut p);
        match p {
            Pending::OpenData { room, online_id, peers } => {
                let hello = handshake(online_id.as_str());
                self.state = room;
                self.directory.rebuild(&peers);
                self.room_id = online_id;
                let event = if room == RelayState::Hosting {
                    NetworkEvent::Hosting { peer_list: peers }
                } else {
                    NetworkEvent::Joined { peer_list: peers }
                };
                let mut r: Vec<Action> = Vec::new();
                r.push(Action::SendDatagram { bytes: hello });
                r.push(Action::Emit { event });
                assert(actions_view(r@) =~= after_data_opened(old(self)@).1);
                r
            },
            other => {
                self.pending = other;
                Vec::new()
            },
        }
    }

    /// Handles a datagram received on the data channel.
    pub fn on_datagram(&mut self, bytes: &[u8]) -> (r: Vec<Action>)
        requires
            old(self).wf(),
        ensures
            final(self).wf(),
            (final(self)@, actions_view(r@)) == after_datagram(old(self)@, bytes@),
    {
        if self.state != RelayState::Hosting && self.state != RelayState::Joined {
            return Vec::new();
        }
        match inbound_event(bytes) {
            Some(event) => one_action(Action::Emit { event }),
            None => Vec::new(),
        }
    }

    /// Handles a failure to open the data channel.
    pub fn on_data_open_failed(&mut self, message: String) -> (r: Vec<Action>)
        requires
            old(self).wf(),
        ensures
            final(self).wf(),
            (final(self)@, actions_view(r@)) == after_data_open_failed(old(self)@, message@),
    {
        if !matches!(self.pending, Pending::OpenData { .. }) {
            return Vec::new();
        }
        self.pending = Pending::Idle;
        error_action(message)
    }
}

/// From `Disconnected` the only command that starts anything is
/// `ConnectToRelay`, which moves to `Connecting` and asks for the control
/// connection; `Host`, `Join` and `SendPacket` change nothing and send
/// nothing.
pub proof fn lemma_disconnected_commands(s: SessionModel, c: CommandModel)
    requires
        s.state is Disconnected,
    ensures
        c is Host || c is Join || c is SendPacket ==> after_command(s, c) == no_step(s),
        c matches CommandModel::ConnectToRelay(host, port) ==> after_command(s, c).0.state
            is Connecting && after_command(s, c).1 == seq![ActionModel::OpenControl(host, port)],
{
}

/// In `Disconnected` nothing that the transport reports changes the session
/// or makes it send anything: no control bytes, no closed connection, no
/// datagram, no channel that opens.
pub proof fn lemma_disconnected_ignores_transport(s: SessionModel, bytes: Seq<u8>, message: Seq<char>)
    requires
        s.state is Disconnected,
        wf_model(s),
    ensures
        after_control_connected(s) == no_step(s),
        after_connect_failed(s, message) == no_step(s),
        after_control_bytes(s, bytes) == no_step(s),
        after_control_closed(s) == no_step(s),
        after_data_opened(s) == no_step(s),
        after_data_open_failed(s, message) == no_step(s),
        after_datagram(s, bytes) == no_step(s),
{
}

/// Whenever a frame makes the session announce `PeerListUpdated` with a list
/// of distinct members, the directory afterwards resolves numeric id `n` to
/// identity `id`, and `id` to `n`, exactly when `(id, n)` is on that list.
pub proof fn lemma_peer_list_update(s: SessionModel, body: Seq<u8>, p: Seq<(Seq<char>, u32)>)
    requires
        after_frame(s, body).1 == seq![ActionModel::Emit(EventModel::PeerListUpdated(p))],
        distinct_members(p),
    ensures
        forall|id: Seq<char>, n: u32|
            #![trigger identity_of(after_frame(s, body).0.directory, n), numeric_of(after_frame(s, body).0.directory, id)]
            (identity_of(after_frame(s, body).0.directory, n) == Some(id) <==> p.contains((id, n)))
                && (numeric_of(after_frame(s, body).0.directory, id) == Some(n) <==> p.contains(
                (id, n),
            )),
{
    let (t, acts) = after_frame(s, body);
    assert(acts.len() == 1);
    assert(acts[0] == ActionModel::Emit(EventModel::PeerListUpdated(p)));
    assert(t.directory == p);
    lemma_directory_consistent(p);
}

} // verus!
