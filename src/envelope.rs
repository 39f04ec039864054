//! The data-channel envelope.
//!
//! A datagram is the sender's identity and the target's identity, each
//! length-prefixed, followed by the raw payload. The relay resolves the
//! target identity to a transport address itself.

use vstd::prelude::*;
use vstd::utf8::*;
use crate::codec::{ByteUtils, append_bytes, be_at, be_bytes, same_bytes};
use crate::directory::{PeerDirectory, identity_of};
use crate::messages::{EventModel, NetworkEvent};

verus! {

/// The identity under which the relay itself sends: ASCII `SERVER`.
pub open spec fn relay_id() -> Seq<u8> {
    seq![83u8, 69u8, 82u8, 86u8, 69u8, 82u8]
}

/// The target that addresses the relay and every peer: ASCII `0`.
pub open spec fn broadcast_id() -> Seq<u8> {
    seq![48u8]
}

/// The payload of the data-channel handshake: ASCII `UDP_CONNECT`.
pub open spec fn connect_payload() -> Seq<u8> {
    seq![85u8, 68u8, 80u8, 95u8, 67u8, 79u8, 78u8, 78u8, 69u8, 67u8, 84u8]
}

/// A datagram from `sender` to `target` carrying `payload`.
pub open spec fn envelope(sender: Seq<u8>, target: Seq<u8>, payload: Seq<u8>) -> Seq<u8> {
    be_bytes(sender.len() as u32) + sender + be_bytes(target.len() as u32) + target + payload
}

/// The decimal digits of `n`, in ASCII.
pub open spec fn digits(n: nat) -> Seq<u8>
    decreases n,
{
    if n < 10 {
        seq![(48 + n) as u8]
    } else {
        digits(n / 10) + seq![(48 + n % 10) as u8]
    }
}

/// `n` written in decimal, in ASCII, with a leading `-` when negative.
pub open spec fn decimal(n: int) -> Seq<u8> {
    if n < 0 {
        seq![45u8] + digits((-n) as nat)
    } else {
        digits(n as nat)
    }
}

/// The target identity for numeric peer `to_peer`: the broadcast target for
/// `0`, the identity that the directory lists for it, or else the number
/// itself in decimal.
pub open spec fn target_of(to_peer: i32, peers: Seq<(Seq<char>, u32)>) -> Seq<u8> {
    if to_peer == 0 {
        broadcast_id()
    } else if to_peer > 0 && identity_of(peers, to_peer as u32) is Some {
        encode_utf8(identity_of(peers, to_peer as u32)->0)
    } else {
        decimal(to_peer as int)
    }
}

/// The datagram that carries `data` from `own_id` to numeric peer
/// `to_peer`, or `None` when an identity is too long for its length field.
pub open spec fn outbound(
    own_id: Seq<char>,
    to_peer: i32,
    data: Seq<u8>,
    peers: Seq<(Seq<char>, u32)>,
) -> Option<Seq<u8>> {
    let sender = encode_utf8(own_id);
    let target = target_of(to_peer, peers);
    if sender.len() <= u32::MAX && target.len() <= u32::MAX {
        Some(envelope(sender, target, data))
    } else {
        None
    }
}

/// The sender, target and payload of a datagram, or `None` when a declared
/// length overruns it or the sender is not UTF-8.
pub open spec fn datagram(b: Seq<u8>) -> Option<(Seq<char>, Seq<u8>, Seq<u8>)> {
    if b.len() < 4 {
        None
    } else {
        let sender_end = 4 + be_at(b, 0);
        if sender_end + 4 > b.len() || !valid_utf8(b.subrange(4, sender_end)) {
            None
        } else {
            let start = sender_end + 4 + be_at(b, sender_end);
            if start > b.len() {
                None
            } else {
                Some(
                    (
                        decode_utf8(b.subrange(4, sender_end)),
                        b.subrange(sender_end + 4, start),
                        b.subrange(start, b.len() as int),
                    ),
                )
            }
        }
    }
}

/// The event that a received datagram gives the caller: its payload, when
/// it is well formed and comes from a peer rather than from the relay.
pub open spec fn inbound(b: Seq<u8>) -> Option<EventModel> {
    match datagram(b) {
        Some((sender, _, payload)) => if encode_utf8(sender) == relay_id() {
            None
        } else {
            Some(EventModel::PacketReceived(sender, payload))
        },
        None => None,
    }
}

/// Appends the decimal digits of `n`.
fn push_digits(v: &mut Vec<u8>, n: u64)
    ensures
        final(v)@ == old(v)@ + digits(n as nat),
    decreases n,
{
    if n >= 10 {
        push_digits(v, n / 10);
    }
    v.push(48u8 + (n % 10) as u8);
    proof {
        if n >= 10 {
            assert(old(v)@ + digits((n / 10) as nat) + seq![(48 + n % 10) as u8] == old(v)@
                + digits(n as nat));
        }
    }
}

/// `n` written in decimal, in ASCII.
pub fn decimal_bytes(n: i32) -> (r: Vec<u8>)
    ensures
        r@ == decimal(n as int),
{
    let mut r: Vec<u8> = Vec::new();
    if n < 0 {
        r.push(45u8);
        let m: i64 = n as i64;
        push_digits(&mut r, (-m) as u64);
    } else {
        push_digits(&mut r, n as u64);
    }
    r
}

/// The bytes of a datagram from `sender` to `target` carrying `payload`.
pub fn build_envelope(sender: &[u8], target: &[u8], payload: &[u8]) -> (r: Vec<u8>)
    requires
        sender@.len() <= u32::MAX,
        target@.len() <= u32::MAX,
    ensures
        r@ == envelope(sender@, target@, payload@),
{
    let mut r = ByteUtils::pack_u32(sender.len() as u32);
    append_bytes(&mut r, sender);
    let t = ByteUtils::pack_u32(target.len() as u32);
    append_bytes(&mut r, t.as_slice());
    append_bytes(&mut r, target);
    append_bytes(&mut r, payload);
    r
}

/// The handshake that opens the data channel: from `own_id` to the relay,
/// carrying the connect payload.
pub fn handshake(own_id: &str) -> (r: Vec<u8>)
    requires
        encode_utf8(own_id@).len() <= u32::MAX,
    ensures
        r@ == envelope(encode_utf8(own_id@), relay_id(), connect_payload()),
{
    let server: Vec<u8> = vec![83u8, 69u8, 82u8, 86u8, 69u8, 82u8];
    let payload: Vec<u8> = vec![85u8, 68u8, 80u8, 95u8, 67u8, 79u8, 78u8, 78u8, 69u8, 67u8, 84u8];
    assert(server@ == relay_id());
    assert(payload@ == connect_payload());
    build_envelope(own_id.as_bytes(), server.as_slice(), payload.as_slice())
}

/// The target identity for numeric peer `to_peer`, resolved through the
/// directory; `0` is the broadcast target and is never looked up.
pub fn resolve_target(to_peer: i32, directory: &PeerDirectory) -> (r: Vec<u8>)
    ensures
        r@ == target_of(to_peer, directory@),
{
    if to_peer == 0 {
        let r: Vec<u8> = vec![48u8];
        assert(r@ == broadcast_id());
        return r;
    }
    if to_peer > 0 {
        if let Some(id) = directory.resolve_to_identity(to_peer as u32) {
            let mut r: Vec<u8> = Vec::new();
            append_bytes(&mut r, id.as_str().as_bytes());
            return r;
        }
    }
    decimal_bytes(to_peer)
}

/// The datagram that carries `data` from `own_id` to numeric peer `to_peer`.
pub fn outbound_envelope(own_id: &str, to_peer: i32, data: &[u8], directory: &PeerDirectory) -> (r:
    Option<Vec<u8>>)
    ensures
        match r {
            Some(b) => outbound(own_id@, to_peer, data@, directory@) == Some(b@),
            None => outbound(own_id@, to_peer, data@, directory@) is None,
        },
{
    let sender = own_id.as_bytes();
    let target = resolve_target(to_peer, directory);
    if sender.len() > u32::MAX as usize || target.len() > u32::MAX as usize {
        return None;
    }
    Some(build_envelope(sender, target.as_slice(), data))
}

/// A decoded datagram.
pub struct Datagram {
    pub sender: String,
    pub target: Vec<u8>,
    pub payload: Vec<u8>,
}

/// Decodes a received datagram; `None` when it is malformed.
pub fn decode_datagram(bytes: &[u8]) -> (r: Option<Datagram>)
    ensures
        match r {
            Some(d) => datagram(bytes@) == Some((d.sender@, d.target@, d.payload@)),
            None => datagram(bytes@) is None,
        },
{
    let sender_len = match ByteUtils::unpack_u32(bytes, 0) {
        Ok(n) => n,
        Err(_) => {
            return None;
        },
    };
    if sender_len as usize > bytes.len() - 4 || bytes.len() - 4 - (sender_len as usize) < 4 {
        return None;
    }
    let sender_end = 4 + sender_len as usize;
    let sender = match ByteUtils::unpack_str(bytes, 0) {
        Ok((s, _)) => s,
        Err(_) => {
            return None;
        },
    };
    let target_len = match ByteUtils::unpack_u32(bytes, sender_end) {
        Ok(n) => n,
        Err(_) => {
            return None;
        },
    };
    if target_len as usize > bytes.len() - sender_end - 4 {
        return None;
    }
    let start = sender_end + 4 + target_len as usize;
    let mut target: Vec<u8> = Vec::new();
    append_bytes(&mut target, &bytes[sender_end + 4..start]);
    let mut payload: Vec<u8> = Vec::new();
    append_bytes(&mut payload, &bytes[start..bytes.len()]);
    Some(Datagram { sender, target, payload })
}

/// The event that a received datagram gives the caller: `PacketReceived`
/// for a well-formed datagram from a peer; nothing for a malformed one or
/// for one from the relay (its handshake acknowledgement).
pub fn inbound_event(bytes: &[u8]) -> (r: Option<NetworkEvent>)
    ensures
        match r {
            Some(e) => inbound(bytes@) == Some(e@),
            None => inbound(bytes@) is None,
        },
{
    let d = match decode_datagram(bytes) {
        Some(d) => d,
        None => {
            return None;
        },
    };
    let server: Vec<u8> = vec![83u8, 69u8, 82u8, 86u8, 69u8, 82u8];
    assert(server@ == relay_id());
    if same_bytes(d.sender.as_str().as_bytes(), server.as_slice()) {
        return None;
    }
    Some(NetworkEvent::PacketReceived { from_online_id: d.sender, data: d.payload })
}

} // verus!
