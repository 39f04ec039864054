//! The commands that the caller sends to the session engine and the events
//! that it gets back.

use vstd::prelude::*;
use crate::protocol::{PeerInfo, peers_view};

verus! {

/// Commands from the caller to the session engine.
#[derive(Debug, Clone)]
pub enum NetworkCommand {
    ConnectToRelay { host: String, port: u16 },
    Host { online_id: String },
    Join { online_id: String, host_online_id: String },
    SendPacket { to_peer: i32, data: Vec<u8> },
    Disconnect,
}

/// What a command says, over plain values.
pub enum CommandModel {
    ConnectToRelay(Seq<char>, u16),
    Host(Seq<char>),
    Join(Seq<char>, Seq<char>),
    SendPacket(i32, Seq<u8>),
    Disconnect,
}

impl View for NetworkCommand {
    type V = CommandModel;

    open spec fn view(&self) -> CommandModel {
        match self {
            NetworkCommand::ConnectToRelay { host, port } => CommandModel::ConnectToRelay(
                host@,
                *port,
            ),
            NetworkCommand::Host { online_id } => CommandModel::Host(online_id@),
            NetworkCommand::Join { online_id, host_online_id } => CommandModel::Join(
                online_id@,
                host_online_id@,
            ),
            NetworkCommand::SendPacket { to_peer, data } => CommandModel::SendPacket(
                *to_peer,
                data@,
            ),
            NetworkCommand::Disconnect => CommandModel::Disconnect,
        }
    }
}

/// Events from the session engine to the caller.
#[derive(Debug, Clone)]
pub enum NetworkEvent {
    RelayConnected { online_id: String },
    Hosting { peer_list: Vec<PeerInfo> },
    Joined { peer_list: Vec<PeerInfo> },
    PeerListUpdated { peer_list: Vec<PeerInfo> },
    PacketReceived { from_online_id: String, data: Vec<u8> },
    Error { message: String },
}

/// What an event says, over plain values.
pub enum EventModel {
    RelayConnected(Seq<char>),
    Hosting(Seq<(Seq<char>, u32)>),
    Joined(Seq<(Seq<char>, u32)>),
    PeerListUpdated(Seq<(Seq<char>, u32)>),
    PacketReceived(Seq<char>, Seq<u8>),
    Error(Seq<char>),
}

impl View for NetworkEvent {
    type V = EventModel;

    open spec fn view(&self) -> EventModel {
        match self {
            NetworkEvent::RelayConnected { online_id } => EventModel::RelayConnected(online_id@),
            NetworkEvent::Hosting { peer_list } => EventModel::Hosting(peers_view(peer_list@)),
            NetworkEvent::Joined { peer_list } => EventModel::Joined(peers_view(peer_list@)),
            NetworkEvent::PeerListUpdated { peer_list } => EventModel::PeerListUpdated(
                peers_view(peer_list@),
            ),
            NetworkEvent::PacketReceived { from_online_id, data } => EventModel::PacketReceived(
                from_online_id@,
                data@,
            ),
            NetworkEvent::Error { message } => EventModel::Error(message@),
        }
    }
}

} // verus!
