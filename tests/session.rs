use nodetunnel::engine::{Action, RelaySession, RelayState};
use nodetunnel::envelope::inbound_event;
use nodetunnel::framing::frame;
use nodetunnel::messages::{NetworkCommand, NetworkEvent};
use nodetunnel::protocol::PacketBuilder;

fn string_field(s: &str) -> Vec<u8> {
    let mut v = (s.len() as u32).to_be_bytes().to_vec();
    v.extend_from_slice(s.as_bytes());
    v
}

fn connect_response(id: &str) -> Vec<u8> {
    let mut v = 0u32.to_be_bytes().to_vec();
    v.extend(string_field(id));
    v
}

fn peer_list_body(tag: u32, peers: &[(&str, u32)]) -> Vec<u8> {
    let mut v = tag.to_be_bytes().to_vec();
    v.extend_from_slice(&(peers.len() as u32).to_be_bytes());
    for (id, n) in peers {
        v.extend(string_field(id));
        v.extend_from_slice(&n.to_be_bytes());
    }
    v
}

fn envelope_bytes(sender: &[u8], target: &[u8], payload: &[u8]) -> Vec<u8> {
    let mut v = (sender.len() as u32).to_be_bytes().to_vec();
    v.extend_from_slice(sender);
    v.extend_from_slice(&(target.len() as u32).to_be_bytes());
    v.extend_from_slice(target);
    v.extend_from_slice(payload);
    v
}

fn events(actions: &[Action]) -> Vec<&NetworkEvent> {
    actions
        .iter()
        .filter_map(|a| match a {
            Action::Emit { event } => Some(event),
            _ => None,
        })
        .collect()
}

fn connected_session() -> RelaySession {
    let mut s = RelaySession::new();
    s.handle_command(NetworkCommand::ConnectToRelay { host: "127.0.0.1".to_string(), port: 9998 });
    s.on_control_connected();
    s.on_control_bytes(&frame(&connect_response("OID-1")));
    assert_eq!(s.state(), RelayState::Connected);
    s
}

fn hosting_session(peers: &[(&str, u32)]) -> RelaySession {
    let mut s = connected_session();
    s.handle_command(NetworkCommand::Host { online_id: "OID-1".to_string() });
    s.on_control_bytes(&frame(&peer_list_body(1, peers)));
    s.on_data_opened();
    assert_eq!(s.state(), RelayState::Hosting);
    s
}

#[test]
fn disconnected_ignores_room_commands() {
    let mut s = RelaySession::new();
    let commands = vec![
        NetworkCommand::Host { online_id: "OID-1".to_string() },
        NetworkCommand::Join { online_id: "OID-1".to_string(), host_online_id: "OID-2".to_string() },
        NetworkCommand::SendPacket { to_peer: 1, data: vec![1, 2, 3] },
    ];
    for c in commands {
        let actions = s.handle_command(c);
        assert!(actions.is_empty());
        assert_eq!(s.state(), RelayState::Disconnected);
    }
    let actions = s.handle_command(NetworkCommand::ConnectToRelay { host: "relay".to_string(), port: 9998 });
    assert_eq!(s.state(), RelayState::Connecting);
    assert_eq!(actions.len(), 1);
    match &actions[0] {
        Action::OpenControl { host, port } => {
            assert_eq!(host, "relay");
            assert_eq!(*port, 9998);
        }
        other => panic!("unexpected {:?}", other),
    }
}

#[test]
fn connect_scenario() {
    let mut s = RelaySession::new();
    s.handle_command(NetworkCommand::ConnectToRelay { host: "127.0.0.1".to_string(), port: 9998 });
    let sent = s.on_control_connected();
    assert_eq!(sent.len(), 1);
    match &sent[0] {
        Action::SendControl { bytes } => assert_eq!(bytes, &frame(&PacketBuilder::build_connect())),
        other => panic!("unexpected {:?}", other),
    }
    let actions = s.on_control_bytes(&frame(&connect_response("OID-1")));
    assert_eq!(actions.len(), 1);
    match &actions[0] {
        Action::Emit { event: NetworkEvent::RelayConnected { online_id } } => assert_eq!(online_id, "OID-1"),
        other => panic!("unexpected {:?}", other),
    }
    assert_eq!(s.state(), RelayState::Connected);
    assert_eq!(s.online_id(), "OID-1");
}

#[test]
fn connect_response_in_pieces() {
    let mut s = RelaySession::new();
    s.handle_command(NetworkCommand::ConnectToRelay { host: "127.0.0.1".to_string(), port: 9998 });
    s.on_control_connected();
    let bytes = frame(&connect_response("OID-1"));
    let mut all = Vec::new();
    for b in &bytes {
        all.extend(s.on_control_bytes(&[*b]));
    }
    assert_eq!(events(&all).len(), 1);
    assert_eq!(s.state(), RelayState::Connected);
}

#[test]
fn host_scenario() {
    let mut s = connected_session();
    let sent = s.handle_command(NetworkCommand::Host { online_id: "OID-1".to_string() });
    match &sent[..] {
        [Action::SendControl { bytes }] => assert_eq!(bytes, &frame(&PacketBuilder::build_host("OID-1"))),
        other => panic!("unexpected {:?}", other),
    }
    assert_eq!(s.state(), RelayState::Connected);
    let open = s.on_control_bytes(&frame(&peer_list_body(1, &[("OID-1", 1)])));
    match &open[..] {
        [Action::OpenData { host, port }] => {
            assert_eq!(host, "127.0.0.1");
            assert_eq!(*port, 9999);
        }
        other => panic!("unexpected {:?}", other),
    }
    let actions = s.on_data_opened();
    assert_eq!(s.state(), RelayState::Hosting);
    match &actions[..] {
        [Action::SendDatagram { bytes }, Action::Emit { event: NetworkEvent::Hosting { peer_list } }] => {
            assert_eq!(bytes, &envelope_bytes(b"OID-1", b"SERVER", b"UDP_CONNECT"));
            assert_eq!(peer_list.len(), 1);
            assert_eq!(peer_list[0].online_id, "OID-1");
            assert_eq!(peer_list[0].numeric_id, 1);
        }
        other => panic!("unexpected {:?}", other),
    }
    assert_eq!(s.directory().resolve_to_identity(1).as_deref(), Some("OID-1"));
    assert_eq!(s.directory().resolve_to_numeric("OID-1"), Some(1));
}

#[test]
fn join_scenario() {
    let mut s = connected_session();
    let sent = s.handle_command(NetworkCommand::Join { online_id: "OID-1".to_string(), host_online_id: "OID-2".to_string() });
    match &sent[..] {
        [Action::SendControl { bytes }] => assert_eq!(bytes, &frame(&PacketBuilder::build_join("OID-1", "OID-2"))),
        other => panic!("unexpected {:?}", other),
    }
    s.on_control_bytes(&frame(&peer_list_body(2, &[("OID-2", 1), ("OID-1", 2)])));
    let actions = s.on_data_opened();
    assert_eq!(s.state(), RelayState::Joined);
    match events(&actions)[..] {
        [NetworkEvent::Joined { peer_list }] => assert_eq!(peer_list.len(), 2),
        ref other => panic!("unexpected {:?}", other),
    }
}

#[test]
fn malformed_datagram_scenario() {
    let mut s = hosting_session(&[("OID-1", 1)]);
    let mut d = envelope_bytes(b"OID-2", b"OID-1", &[1, 2, 3]);
    d[3] = 100;
    assert!(inbound_event(&d).is_none());
    assert!(s.on_datagram(&d).is_empty());
    assert_eq!(s.state(), RelayState::Hosting);
}

#[test]
fn datagram_from_peer_while_hosting() {
    let mut s = hosting_session(&[("OID-1", 1), ("OID-2", 2)]);
    let actions = s.on_datagram(&envelope_bytes(b"OID-2", b"OID-1", &[7, 8]));
    match events(&actions)[..] {
        [NetworkEvent::PacketReceived { from_online_id, data }] => {
            assert_eq!(from_online_id, "OID-2");
            assert_eq!(data, &vec![7, 8]);
        }
        ref other => panic!("unexpected {:?}", other),
    }
    assert!(s.on_datagram(&envelope_bytes(b"SERVER", b"OID-1", b"UDP_CONNECT_RES")).is_empty());
}

#[test]
fn datagram_outside_room_is_dropped() {
    let mut s = connected_session();
    assert!(s.on_datagram(&envelope_bytes(b"OID-2", b"OID-1", &[7])).is_empty());
}

#[test]
fn send_packet_scenario() {
    let mut s = hosting_session(&[("OID-1", 2), ("OID-2", 1)]);
    let actions = s.handle_command(NetworkCommand::SendPacket { to_peer: 1, data: vec![1, 2, 3] });
    match &actions[..] {
        [Action::SendDatagram { bytes }] => {
            assert_eq!(bytes, &envelope_bytes(b"OID-1", b"OID-2", &[1, 2, 3]));
        }
        other => panic!("unexpected {:?}", other),
    }
    assert_eq!(s.state(), RelayState::Hosting);
}

#[test]
fn send_packet_broadcast_and_fallback() {
    let mut s = hosting_session(&[("OID-1", 1)]);
    match &s.handle_command(NetworkCommand::SendPacket { to_peer: 0, data: vec![9] })[..] {
        [Action::SendDatagram { bytes }] => assert_eq!(bytes, &envelope_bytes(b"OID-1", b"0", &[9])),
        other => panic!("unexpected {:?}", other),
    }
    match &s.handle_command(NetworkCommand::SendPacket { to_peer: 7, data: vec![] })[..] {
        [Action::SendDatagram { bytes }] => assert_eq!(bytes, &envelope_bytes(b"OID-1", b"7", &[])),
        other => panic!("unexpected {:?}", other),
    }
}

#[test]
fn control_closes_during_host_scenario() {
    let mut s = connected_session();
    s.handle_command(NetworkCommand::Host { online_id: "OID-1".to_string() });
    let body = peer_list_body(1, &[("OID-1", 1)]);
    let bytes = frame(&body);
    assert!(s.on_control_bytes(&bytes[..6]).is_empty());
    let actions = s.on_control_closed();
    assert_eq!(s.state(), RelayState::Disconnected);
    assert!(matches!(actions[0], Action::CloseChannels));
    let evs = events(&actions);
    assert_eq!(evs.len(), 1);
    assert!(matches!(evs[0], NetworkEvent::Error { .. }));
    assert!(!evs.iter().any(|e| matches!(e, NetworkEvent::Hosting { .. })));
    assert!(s.on_control_bytes(&bytes[6..]).is_empty());
}

#[test]
fn wrong_response_tag_disconnects() {
    let mut s = connected_session();
    s.handle_command(NetworkCommand::Host { online_id: "OID-1".to_string() });
    let actions = s.on_control_bytes(&frame(&peer_list_body(2, &[("OID-1", 1)])));
    assert_eq!(s.state(), RelayState::Disconnected);
    match events(&actions)[..] {
        [NetworkEvent::Error { message }] => assert_eq!(message, "unexpected packet type"),
        ref other => panic!("unexpected {:?}", other),
    }
}

#[test]
fn connect_failure_reports_error() {
    let mut s = RelaySession::new();
    s.handle_command(NetworkCommand::ConnectToRelay { host: "nowhere".to_string(), port: 1 });
    let actions = s.on_control_connect_failed("refused".to_string());
    assert_eq!(s.state(), RelayState::Disconnected);
    match events(&actions)[..] {
        [NetworkEvent::Error { message }] => assert_eq!(message, "refused"),
        ref other => panic!("unexpected {:?}", other),
    }
}

#[test]
fn truncated_connect_response_disconnects() {
    let mut s = RelaySession::new();
    s.handle_command(NetworkCommand::ConnectToRelay { host: "relay".to_string(), port: 9998 });
    s.on_control_connected();
    let actions = s.on_control_bytes(&frame(&[0, 0, 0, 0, 0, 0, 0, 9]));
    assert_eq!(s.state(), RelayState::Disconnected);
    match events(&actions)[..] {
        [NetworkEvent::Error { message }] => assert_eq!(message, "truncated packet"),
        ref other => panic!("unexpected {:?}", other),
    }
}

#[test]
fn peer_list_push_rebuilds_directory() {
    let mut s = hosting_session(&[("OID-1", 1)]);
    let actions = s.on_control_bytes(&frame(&peer_list_body(3, &[("OID-1", 1), ("OID-2", 2)])));
    match events(&actions)[..] {
        [NetworkEvent::PeerListUpdated { peer_list }] => assert_eq!(peer_list.len(), 2),
        ref other => panic!("unexpected {:?}", other),
    }
    assert_eq!(s.directory().resolve_to_identity(2).as_deref(), Some("OID-2"));
    assert_eq!(s.directory().resolve_to_numeric("OID-2"), Some(2));
    s.on_control_bytes(&frame(&peer_list_body(3, &[("OID-1", 1)])));
    assert_eq!(s.directory().resolve_to_identity(2), None);
    assert_eq!(s.directory().resolve_to_numeric("OID-2"), None);
    assert_eq!(s.state(), RelayState::Hosting);
}

#[test]
fn data_open_failure_stays_connected() {
    let mut s = connected_session();
    s.handle_command(NetworkCommand::Host { online_id: "OID-1".to_string() });
    s.on_control_bytes(&frame(&peer_list_body(1, &[("OID-1", 1)])));
    let actions = s.on_data_open_failed("bind failed".to_string());
    assert_eq!(s.state(), RelayState::Connected);
    assert_eq!(events(&actions).len(), 1);
    assert!(s.on_data_opened().is_empty());
}

#[test]
fn last_relay_port_has_no_data_port() {
    let mut s = RelaySession::new();
    s.handle_command(NetworkCommand::ConnectToRelay { host: "relay".to_string(), port: 65535 });
    s.on_control_connected();
    s.on_control_bytes(&frame(&connect_response("OID-1")));
    s.handle_command(NetworkCommand::Host { online_id: "OID-1".to_string() });
    let actions = s.on_control_bytes(&frame(&peer_list_body(1, &[("OID-1", 1)])));
    assert_eq!(s.state(), RelayState::Connected);
    assert!(matches!(events(&actions)[..], [NetworkEvent::Error { .. }]));
}

#[test]
fn host_outside_connected_is_ignored() {
    let mut s = hosting_session(&[("OID-1", 1)]);
    assert!(s.handle_command(NetworkCommand::Host { online_id: "OID-1".to_string() }).is_empty());
    assert_eq!(s.state(), RelayState::Hosting);
}

#[test]
fn disconnect_shuts_down() {
    let mut s = hosting_session(&[("OID-1", 1)]);
    let actions = s.handle_command(NetworkCommand::Disconnect);
    assert!(matches!(actions[..], [Action::Shutdown]));
    assert_eq!(s.state(), RelayState::Disconnected);
    assert_eq!(s.directory().resolve_to_identity(1), None);
}
