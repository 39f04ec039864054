//! The packets of the control channel: type tags, request builders and
//! response parsers.
//!
//! A packet body starts with its `u32` type tag; the rest depends on the tag.

use vstd::prelude::*;
use vstd::utf8::*;
use crate::codec::{ByteUtils, append_bytes, be_at, be_bytes, str_at, str_bytes};

verus! {

/// The packet type tags that the relay understands.
#[derive(Debug, Clone, Copy, PartialEq, Eq, Structural)]
pub enum PacketType {
    ConnectToRelay,
    HostGame,
    JoinGame,
    PeerList,
}

impl PacketType {
    /// The tag that stands first in a packet of this type.
    pub open spec fn spec_tag(self) -> u32 {
        match self {
            PacketType::ConnectToRelay => 0,
            PacketType::HostGame => 1,
            PacketType::JoinGame => 2,
            PacketType::PeerList => 3,
        }
    }

    /// The tag that stands first in a packet of this type.
    pub fn tag(&self) -> (r: u32)
        ensures
            r == self.spec_tag(),
    {
        match self {
            PacketType::ConnectToRelay => 0,
            PacketType::HostGame => 1,
            PacketType::JoinGame => 2,
            PacketType::PeerList => 3,
        }
    }

    /// The packet type with tag `value`, if there is one.
    pub fn from_u32(value: u32) -> (r: Option<PacketType>)
        ensures
            r is None <==> value > 3,
            r matches Some(t) ==> t.spec_tag() == value,
    {
        match value {
            0 => Some(PacketType::ConnectToRelay),
            1 => Some(PacketType::HostGame),
            2 => Some(PacketType::JoinGame),
            3 => Some(PacketType::PeerList),
            _ => None,
        }
    }
}

/// Why a packet could not be read.
#[derive(Debug, Clone, Copy, PartialEq, Eq, Structural)]
pub enum WireError {
    /// A declared field length overruns the packet.
    TruncatedPacket,
    /// A string field is not valid UTF-8.
    MalformedPayload,
    /// The response's tag is not the one the pending request allows.
    ProtocolViolation { tag: u32 },
    /// The stream closed before a whole packet arrived.
    ConnectionClosed,
}

/// The relay's answer to a connect request.
#[derive(Debug, Clone)]
pub struct ConnectResponse {
    pub online_id: String,
}

/// A request to host a room under an identity.
#[derive(Debug, Clone)]
pub struct HostRequest {
    pub online_id: String,
}

/// A request to join the room of `host_id` under the identity `joiner_id`.
#[derive(Debug, Clone)]
pub struct JoinRequest {
    pub joiner_id: String,
    pub host_id: String,
}

/// One member of a room: its session identity and its numeric id in the room.
#[derive(Debug, Clone)]
pub struct PeerInfo {
    pub online_id: String,
    pub numeric_id: u32,
}

impl View for PeerInfo {
    type V = (Seq<char>, u32);

    open spec fn view(&self) -> (Seq<char>, u32) {
        (self.online_id@, self.numeric_id)
    }
}

impl PeerInfo {
    /// A copy of this entry.
    pub fn duplicate(&self) -> (r: PeerInfo)
        ensures
            r@ == self@,
    {
        PeerInfo { online_id: self.online_id.clone(), numeric_id: self.numeric_id }
    }
}

/// The members of a room, as the relay lists them.
#[derive(Debug, Clone)]
pub struct PeerListResponse {
    pub peers: Vec<PeerInfo>,
}

/// The views of a list of peers.
pub open spec fn peers_view(peers: Seq<PeerInfo>) -> Seq<(Seq<char>, u32)> {
    peers.map_values(|p: PeerInfo| p@)
}

/// A copy of a list of peers.
pub fn duplicate_peers(peers: &Vec<PeerInfo>) -> (r: Vec<PeerInfo>)
    ensures
        peers_view(r@) == peers_view(peers@),
{
    let mut r: Vec<PeerInfo> = Vec::new();
    let mut i: usize = 0;
    while i < peers.len()
        invariant
            i <= peers@.len(),
            peers_view(r@) == peers_view(peers@.subrange(0, i as int)),
        decreases peers@.len() - i,
    {
        r.push(peers[i].duplicate());
        i += 1;
        assert(peers_view(peers@.subrange(0, i as int)) == peers_view(
            peers@.subrange(0, i - 1),
        ).push(peers@[i - 1]@));
    }
    assert(peers@.subrange(0, peers@.len() as int) == peers@);
    r
}

/// An identity that fits a `u32` length field.
pub open spec fn fits_wire(s: Seq<char>) -> bool {
    encode_utf8(s).len() <= u32::MAX
}

/// The body of a connect request: the tag alone.
pub open spec fn connect_request() -> Seq<u8> {
    be_bytes(0)
}

/// The body of a host request: the tag, then the host's identity.
pub open spec fn host_request(online_id: Seq<char>) -> Seq<u8> {
    be_bytes(1) + str_bytes(online_id)
}

/// The body of a join request: the tag, the joiner's identity, the host's identity.
pub open spec fn join_request(online_id: Seq<char>, host_online_id: Seq<char>) -> Seq<u8> {
    be_bytes(2) + str_bytes(online_id) + str_bytes(host_online_id)
}

/// A string field at `offset`, with its end offset; `TruncatedPacket` when
/// its length or its bytes overrun the packet, `MalformedPayload` when the
/// bytes are not UTF-8.
pub open spec fn field_str(data: Seq<u8>, offset: int) -> Result<(Seq<char>, int), WireError> {
    if offset + 4 > data.len() || offset + 4 + be_at(data, offset) > data.len() {
        Err(WireError::TruncatedPacket)
    } else {
        match str_at(data, offset) {
            Some(r) => Ok(r),
            None => Err(WireError::MalformedPayload),
        }
    }
}

/// The identity in a connect response: the string after the tag.
pub open spec fn connect_response(data: Seq<u8>) -> Result<Seq<char>, WireError> {
    if data.len() < 8 {
        Err(WireError::TruncatedPacket)
    } else {
        match field_str(data, 4) {
            Ok((s, _)) => Ok(s),
            Err(e) => Err(e),
        }
    }
}

/// `count` peer entries (identity, then numeric id) from `offset` on.
pub open spec fn peer_entries(data: Seq<u8>, offset: int, count: nat) -> Result<
    Seq<(Seq<char>, u32)>,
    WireError,
>
    decreases count,
{
    if count == 0 {
        Ok(Seq::empty())
    } else {
        match field_str(data, offset) {
            Err(e) => Err(e),
            Ok((s, next)) => if next + 4 > data.len() {
                Err(WireError::TruncatedPacket)
            } else {
                match peer_entries(data, next + 4, (count - 1) as nat) {
                    Ok(rest) => Ok(seq![(s, be_at(data, next))] + rest),
                    Err(e) => Err(e),
                }
            },
        }
    }
}

/// The peers of a peer-list body: the tag, a count, then that many entries.
pub open spec fn peer_list(data: Seq<u8>) -> Result<Seq<(Seq<char>, u32)>, WireError> {
    if data.len() < 8 {
        Err(WireError::TruncatedPacket)
    } else {
        peer_entries(data, 8, be_at(data, 4) as nat)
    }
}

/// Reads the string field at `offset`.
fn read_field_str(data: &[u8], offset: usize) -> (r: Result<(String, usize), WireError>)
    ensures
        match (r, field_str(data@, offset as int)) {
            (Ok((s, next)), Ok((t, end))) => s@ == t && next == end,
            (Err(e), Err(f)) => e == f,
            _ => false,
        },
{
    if offset > data.len() || data.len() - offset < 4 {
        return Err(WireError::TruncatedPacket);
    }
    let len = match ByteUtils::unpack_u32(data, offset) {
        Ok(n) => n,
        Err(_) => {
            return Err(WireError::TruncatedPacket);
        },
    };
    if len as usize > data.len() - offset - 4 {
        return Err(WireError::TruncatedPacket);
    }
    match ByteUtils::unpack_str(data, offset) {
        Ok(r) => Ok(r),
        Err(_) => Err(WireError::MalformedPayload),
    }
}

/// Builds the bodies of the requests that the client sends.
pub struct PacketBuilder;

impl PacketBuilder {
    /// A connect request.
    pub fn build_connect() -> (r: Vec<u8>)
        ensures
            r@ == connect_request(),
    {
        ByteUtils::pack_u32(PacketType::ConnectToRelay.tag())
    }

    /// A request to host a room under `online_id`.
    pub fn build_host(online_id: &str) -> (r: Vec<u8>)
        requires
            fits_wire(online_id@),
        ensures
            r@ == host_request(online_id@),
    {
        let mut packet = ByteUtils::pack_u32(PacketType::HostGame.tag());
        let s = ByteUtils::pack_str(online_id);
        append_bytes(&mut packet, s.as_slice());
        packet
    }

    /// A request to join the room of `host_online_id` under `online_id`.
    pub fn build_join(online_id: &str, host_online_id: &str) -> (r: Vec<u8>)
        requires
            fits_wire(online_id@),
            fits_wire(host_online_id@),
        ensures
            r@ == join_request(online_id@, host_online_id@),
    {
        let mut packet = ByteUtils::pack_u32(PacketType::JoinGame.tag());
        let a = ByteUtils::pack_str(online_id);
        append_bytes(&mut packet, a.as_slice());
        let b = ByteUtils::pack_str(host_online_id);
        append_bytes(&mut packet, b.as_slice());
        packet
    }
}

/// Reads the bodies of the relay's responses.
pub struct PacketParser;

impl PacketParser {
    /// The identity that a connect response assigns.
    pub fn parse_connect(data: &[u8]) -> (r: Result<ConnectResponse, WireError>)
        ensures
            match (r, connect_response(data@)) {
                (Ok(c), Ok(s)) => c.online_id@ == s,
                (Err(e), Err(f)) => e == f,
                _ => false,
            },
    {
        if data.len() < 8 {
            return Err(WireError::TruncatedPacket);
        }
        match read_field_str(data, 4) {
            Ok((online_id, _)) => Ok(ConnectResponse { online_id }),
            Err(e) => Err(e),
        }
    }

    /// The identity that a connect response assigns (the same reading as
    /// `parse_connect`).
    pub fn parse_connect_response(data: &[u8]) -> (r: Result<ConnectResponse, WireError>)
        ensures
            match (r, connect_response(data@)) {
                (Ok(c), Ok(s)) => c.online_id@ == s,
                (Err(e), Err(f)) => e == f,
                _ => false,
            },
    {
        Self::parse_connect(data)
    }

    /// The members listed by a host, join or peer-list response.
    pub fn parse_peers(data: &[u8]) -> (r: Result<PeerListResponse, WireError>)
        ensures
            match (r, peer_list(data@)) {
                (Ok(l), Ok(p)) => peers_view(l.peers@) == p,
                (Err(e), Err(f)) => e == f,
                _ => false,
            },
    {
        if data.len() < 8 {
            return Err(WireError::TruncatedPacket);
        }
        let count = match ByteUtils::unpack_u32(data, 4) {
            Ok(n) => n,
            Err(_) => {
                return Err(WireError::TruncatedPacket);
            },
        };
        let mut peers: Vec<PeerInfo> = Vec::new();
        let mut offset: usize = 8;
        let mut i: u32 = 0;
        while i < count
            invariant
                i <= count,
                count == be_at(data@, 4),
                data@.len() >= 8,
                offset <= data@.len(),
                peer_list(data@) == match peer_entries(data@, offset as int, (count - i) as nat) {
                    Ok(rest) => Ok(peers_view(peers@) + rest),
                    Err(e) => Err::<Seq<(Seq<char>, u32)>, WireError>(e),
                },
            decreases count - i,
        {
            let (online_id, next) = match read_field_str(data, offset) {
                Ok(r) => r,
                Err(e) => {
                    return Err(e);
                },
            };
            if next > data.len() || data.len() - next < 4 {
                return Err(WireError::TruncatedPacket);
            }
            let numeric_id = match ByteUtils::unpack_u32(data, next) {
                Ok(n) => n,
                Err(_) => {
                    return Err(WireError::TruncatedPacket);
                },
            };
            let ghost before = peers@;
            peers.push(PeerInfo { online_id, numeric_id });
            assert(peers_view(peers@) == peers_view(before) + seq![(online_id@, numeric_id)]);
            offset = next + 4;
            i += 1;
            assert forall|rest: Seq<(Seq<char>, u32)>|
                true implies peers_view(before) + (seq![(online_id@, numeric_id)] + rest)
                == peers_view(peers@) + rest by {}
        }
        assert(peer_entries(data@, offset as int, 0) == Ok::<
            Seq<(Seq<char>, u32)>,
            WireError,
        >(Seq::empty()));
        assert(peers_view(peers@) + Seq::<(Seq<char>, u32)>::empty() == peers_view(peers@));
        Ok(PeerListResponse { peers })
    }
}

} // verus!
