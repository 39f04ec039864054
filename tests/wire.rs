use nodetunnel::codec::{ByteUtils, CodecError};
use nodetunnel::directory::PeerDirectory;
use nodetunnel::envelope::{decimal_bytes, decode_datagram, handshake, inbound_event, resolve_target};
use nodetunnel::framing::{frame, FrameBuffer};
use nodetunnel::messages::NetworkEvent;
use nodetunnel::protocol::{PacketBuilder, PacketParser, PacketType, PeerInfo, WireError};

fn string_field(s: &str) -> Vec<u8> {
    let mut v = (s.len() as u32).to_be_bytes().to_vec();
    v.extend_from_slice(s.as_bytes());
    v
}

fn peer_list_body(tag: u32, peers: &[(&str, u32)]) -> Vec<u8> {
    let mut v = tag.to_be_bytes().to_vec();
    v.extend_from_slice(&(peers.len() as u32).to_be_bytes());
    for (id, n) in peers {
        v.extend(string_field(id));
        v.extend_from_slice(&n.to_be_bytes());
    }
    v
}

fn envelope_bytes(sender: &[u8], target: &[u8], payload: &[u8]) -> Vec<u8> {
    let mut v = (sender.len() as u32).to_be_bytes().to_vec();
    v.extend_from_slice(sender);
    v.extend_from_slice(&(target.len() as u32).to_be_bytes());
    v.extend_from_slice(target);
    v.extend_from_slice(payload);
    v
}

#[test]
fn pack_u32_is_big_endian() {
    assert_eq!(ByteUtils::pack_u32(0x01020304), vec![1, 2, 3, 4]);
    assert_eq!(ByteUtils::pack_u32(0), vec![0, 0, 0, 0]);
    assert_eq!(ByteUtils::pack_u32(u32::MAX), vec![255, 255, 255, 255]);
}

#[test]
fn unpack_u32_reads_at_offset() {
    let buf = [9u8, 0, 1, 0, 7];
    assert_eq!(ByteUtils::unpack_u32(&buf, 1), Ok(0x0001_0007));
    assert_eq!(ByteUtils::unpack_u32(&buf, 3), Err(CodecError::MalformedHeader));
    assert_eq!(ByteUtils::unpack_u32(&buf, 10), Err(CodecError::MalformedHeader));
}

#[test]
fn u32_round_trip() {
    for n in [0u32, 1, 255, 256, 65_535, 0xdead_beef, u32::MAX] {
        assert_eq!(ByteUtils::unpack_u32(&ByteUtils::pack_u32(n), 0), Ok(n));
    }
}

#[test]
fn str_round_trip() {
    for s in ["", "OID-1", "héllo wörld", "日本語"] {
        let packed = ByteUtils::pack_str(s);
        assert_eq!(packed.len(), 4 + s.len());
        let (back, next) = ByteUtils::unpack_str(&packed, 0).unwrap();
        assert_eq!(back, s);
        assert_eq!(next, packed.len());
    }
}

#[test]
fn pack_str_prefixes_byte_length() {
    assert_eq!(ByteUtils::pack_str("ab"), vec![0, 0, 0, 2, b'a', b'b']);
    assert_eq!(ByteUtils::pack_str("é"), vec![0, 0, 0, 2, 0xc3, 0xa9]);
}

#[test]
fn unpack_str_errors() {
    assert_eq!(ByteUtils::unpack_str(&[0, 0, 0], 0), Err(CodecError::MalformedHeader));
    assert_eq!(ByteUtils::unpack_str(&[0, 0, 0, 5, b'a'], 0), Err(CodecError::MalformedPayload));
    assert_eq!(ByteUtils::unpack_str(&[0, 0, 0, 1, 0xff], 0), Err(CodecError::MalformedPayload));
}

#[test]
fn packet_type_tags() {
    assert_eq!(PacketType::from_u32(0), Some(PacketType::ConnectToRelay));
    assert_eq!(PacketType::from_u32(1), Some(PacketType::HostGame));
    assert_eq!(PacketType::from_u32(2), Some(PacketType::JoinGame));
    assert_eq!(PacketType::from_u32(3), Some(PacketType::PeerList));
    assert_eq!(PacketType::from_u32(4), None);
    assert_eq!(PacketType::PeerList.tag(), 3);
}

#[test]
fn builders_write_tag_then_strings() {
    assert_eq!(PacketBuilder::build_connect(), vec![0, 0, 0, 0]);
    let mut host = vec![0, 0, 0, 1];
    host.extend(string_field("OID-1"));
    assert_eq!(PacketBuilder::build_host("OID-1"), host);
    let mut join = vec![0, 0, 0, 2];
    join.extend(string_field("OID-2"));
    join.extend(string_field("OID-1"));
    assert_eq!(PacketBuilder::build_join("OID-2", "OID-1"), join);
}

#[test]
fn parse_connect_reads_identity() {
    let mut body = vec![0, 0, 0, 0];
    body.extend(string_field("OID-1"));
    assert_eq!(PacketParser::parse_connect(&body).unwrap().online_id, "OID-1");
    assert_eq!(PacketParser::parse_connect_response(&body).unwrap().online_id, "OID-1");
}

#[test]
fn parse_connect_errors() {
    assert_eq!(PacketParser::parse_connect(&[0, 0, 0, 0, 0, 0]).unwrap_err(), WireError::TruncatedPacket);
    assert_eq!(
        PacketParser::parse_connect(&[0, 0, 0, 0, 0, 0, 0, 9, b'x']).unwrap_err(),
        WireError::TruncatedPacket
    );
    assert_eq!(
        PacketParser::parse_connect(&[0, 0, 0, 0, 0, 0, 0, 1, 0xc3]).unwrap_err(),
        WireError::MalformedPayload
    );
}

#[test]
fn parse_peers_reads_every_entry() {
    let body = peer_list_body(3, &[("OID-1", 1), ("OID-2", 2)]);
    let list = PacketParser::parse_peers(&body).unwrap();
    assert_eq!(list.peers.len(), 2);
    assert_eq!(list.peers[0].online_id, "OID-1");
    assert_eq!(list.peers[0].numeric_id, 1);
    assert_eq!(list.peers[1].online_id, "OID-2");
    assert_eq!(list.peers[1].numeric_id, 2);
    assert_eq!(PacketParser::parse_peers(&peer_list_body(1, &[])).unwrap().peers.len(), 0);
}

#[test]
fn parse_peers_errors() {
    let body = peer_list_body(3, &[("OID-1", 1)]);
    assert_eq!(PacketParser::parse_peers(&body[..body.len() - 1]).unwrap_err(), WireError::TruncatedPacket);
    assert_eq!(PacketParser::parse_peers(&[0, 0, 0, 3, 0, 0]).unwrap_err(), WireError::TruncatedPacket);
    let mut count_too_big = body.clone();
    count_too_big[7] = 2;
    assert_eq!(PacketParser::parse_peers(&count_too_big).unwrap_err(), WireError::TruncatedPacket);
    let mut bad_utf8 = body.clone();
    bad_utf8[12] = 0xff;
    assert_eq!(PacketParser::parse_peers(&bad_utf8).unwrap_err(), WireError::MalformedPayload);
}

#[test]
fn frame_prefixes_length() {
    assert_eq!(frame(&[7, 8, 9]), vec![0, 0, 0, 3, 7, 8, 9]);
    assert_eq!(frame(&[]), vec![0, 0, 0, 0]);
}

#[test]
fn chunked_stream_frames_like_whole_stream() {
    let mut stream = frame(&peer_list_body(3, &[("OID-1", 1)]));
    stream.extend(frame(&[0, 0, 0, 0]));
    stream.extend(frame(&[1, 2]));
    stream.extend_from_slice(&[0, 0, 0, 9, 1]);

    let mut whole = FrameBuffer::new();
    whole.push(&stream);
    let expected = whole.take_frames();
    assert_eq!(expected.len(), 3);
    assert!(whole.finish().is_err());

    for size in 1..stream.len() {
        let mut buffer = FrameBuffer::new();
        let mut got = Vec::new();
        for chunk in stream.chunks(size) {
            buffer.push(chunk);
            got.extend(buffer.take_frames());
        }
        assert_eq!(got, expected);
        assert_eq!(buffer.finish(), Err(WireError::ConnectionClosed));
    }
}

#[test]
fn frame_buffer_waits_for_whole_frame() {
    let mut buffer = FrameBuffer::new();
    buffer.push(&[0, 0, 0, 2, 5]);
    assert!(buffer.take_frames().is_empty());
    buffer.push(&[6]);
    assert_eq!(buffer.take_frames(), vec![vec![5, 6]]);
    assert_eq!(buffer.finish(), Ok(()));
}

fn peers(list: &[(&str, u32)]) -> Vec<PeerInfo> {
    list.iter().map(|(id, n)| PeerInfo { online_id: id.to_string(), numeric_id: *n }).collect()
}

#[test]
fn directory_resolves_both_ways() {
    let mut dir = PeerDirectory::new();
    dir.rebuild(&peers(&[("OID-1", 1), ("OID-2", 2)]));
    assert_eq!(dir.resolve_to_identity(1).as_deref(), Some("OID-1"));
    assert_eq!(dir.resolve_to_identity(2).as_deref(), Some("OID-2"));
    assert_eq!(dir.resolve_to_numeric("OID-1"), Some(1));
    assert_eq!(dir.resolve_to_numeric("OID-2"), Some(2));
    assert_eq!(dir.resolve_to_identity(3), None);
    assert_eq!(dir.resolve_to_numeric("OID-3"), None);
}

#[test]
fn directory_rebuild_drops_stale_entries() {
    let mut dir = PeerDirectory::new();
    dir.rebuild(&peers(&[("OID-1", 1), ("OID-2", 2)]));
    dir.rebuild(&peers(&[("OID-3", 2)]));
    assert_eq!(dir.resolve_to_identity(1), None);
    assert_eq!(dir.resolve_to_numeric("OID-2"), None);
    assert_eq!(dir.resolve_to_identity(2).as_deref(), Some("OID-3"));
    assert_eq!(dir.resolve_to_numeric("OID-3"), Some(2));
}

#[test]
fn handshake_envelope_bytes() {
    assert_eq!(handshake("OID-1"), envelope_bytes(b"OID-1", b"SERVER", b"UDP_CONNECT"));
}

#[test]
fn decimal_text() {
    assert_eq!(decimal_bytes(0), b"0".to_vec());
    assert_eq!(decimal_bytes(7), b"7".to_vec());
    assert_eq!(decimal_bytes(1234), b"1234".to_vec());
    assert_eq!(decimal_bytes(-42), b"-42".to_vec());
    assert_eq!(decimal_bytes(i32::MIN), b"-2147483648".to_vec());
    assert_eq!(decimal_bytes(i32::MAX), b"2147483647".to_vec());
}

#[test]
fn target_resolution() {
    let mut dir = PeerDirectory::new();
    dir.rebuild(&peers(&[("OID-2", 1)]));
    assert_eq!(resolve_target(0, &dir), b"0".to_vec());
    assert_eq!(resolve_target(1, &dir), b"OID-2".to_vec());
    assert_eq!(resolve_target(5, &dir), b"5".to_vec());
    assert_eq!(resolve_target(-3, &dir), b"-3".to_vec());
}

#[test]
fn datagram_decoding() {
    let d = decode_datagram(&envelope_bytes(b"OID-2", b"OID-1", &[1, 2, 3])).unwrap();
    assert_eq!(d.sender, "OID-2");
    assert_eq!(d.target, b"OID-1".to_vec());
    assert_eq!(d.payload, vec![1, 2, 3]);
    assert!(decode_datagram(&[0, 0, 0]).is_none());
    assert!(decode_datagram(&[0, 0, 0, 1, b'a', 0, 0, 0, 2, b'b']).is_none());
    assert!(decode_datagram(&envelope_bytes(&[0xff], b"x", b"")).is_none());
}

#[test]
fn inbound_from_peer_is_forwarded() {
    match inbound_event(&envelope_bytes(b"OID-2", b"OID-1", &[4, 5])) {
        Some(NetworkEvent::PacketReceived { from_online_id, data }) => {
            assert_eq!(from_online_id, "OID-2");
            assert_eq!(data, vec![4, 5]);
        }
        other => panic!("unexpected {:?}", other),
    }
}

#[test]
fn inbound_from_relay_is_not_forwarded() {
    assert!(inbound_event(&envelope_bytes(b"SERVER", b"OID-1", b"UDP_CONNECT_RES")).is_none());
}

#[test]
fn inbound_malformed_is_dropped() {
    let mut d = envelope_bytes(b"OID-2", b"OID-1", &[1]);
    d[3] = 200;
    assert!(inbound_event(&d).is_none());
}

#[test]
fn directory_repeated_ids_take_last_entry() {
    let mut dir = PeerDirectory::new();
    dir.rebuild(&peers(&[("OID-1", 1), ("OID-2", 1), ("OID-2", 3)]));
    assert_eq!(dir.resolve_to_identity(1).as_deref(), Some("OID-2"));
    assert_eq!(dir.resolve_to_numeric("OID-2"), Some(3));
    assert_eq!(dir.resolve_to_numeric("OID-1"), Some(1));
}

#[test]
fn empty_directory_resolves_nothing() {
    let dir = PeerDirectory::new();
    assert_eq!(dir.resolve_to_identity(0), None);
    assert_eq!(dir.resolve_to_numeric(""), None);
}
