//! The messages that travel between peers, as values.
//!
//! Only `version` and `verack` matter to a handshake, but a peer may send
//! anything, so every other kind is kept as its command and raw payload.

pub mod version;

use crate::handshake::network::{EndpointData, SocketAddress};
use vstd::prelude::*;

verus! {

/// The protocol version that this client speaks.
pub const PROTOCOL_VERSION: i32 = 70001;

/// The first protocol version whose `version` message ends with a relay flag.
pub const RELAY_VERSION: i32 = 70001;

/// The service flags of a peer that offers no services.
pub const SERVICES_NONE: u64 = 0;

/// The magic value of the main network, in wire order.
pub open spec fn mainnet_magic() -> Seq<u8> {
    seq![0xF9u8, 0xBEu8, 0xB4u8, 0xD9u8]
}

/// `bitcoin::Network::Bitcoin.magic()`, as bytes: the four bytes that open
/// every message of the main network.
#[verifier::external_body]
pub(crate) fn network_magic() -> (magic: [u8; 4])
    ensures
        magic@ == mainnet_magic(),
{
    bitcoin::Network::Bitcoin.magic().to_bytes()
}

/// The magic value of the main network.
pub fn main_network() -> (magic: [u8; 4])
    ensures
        magic@ == mainnet_magic(),
{
    network_magic()
}

/// The command field of a `version` message: the name, padded with NUL.
pub open spec fn version_command() -> Seq<u8> {
    seq![0x76u8, 0x65u8, 0x72u8, 0x73u8, 0x69u8, 0x6Fu8, 0x6Eu8, 0u8, 0u8, 0u8, 0u8, 0u8]
}

/// The command field of a `verack` message: the name, padded with NUL.
pub open spec fn verack_command() -> Seq<u8> {
    seq![0x76u8, 0x65u8, 0x72u8, 0x61u8, 0x63u8, 0x6Bu8, 0u8, 0u8, 0u8, 0u8, 0u8, 0u8]
}

/// A network address as a `version` message records it: the services
/// advertised for the address, the address itself as sixteen bytes in network
/// order (an IPv4 address in its IPv6-mapped form), and the port.
#[derive(Clone, Copy, Debug, PartialEq, Eq)]
pub struct Address {
    pub services: u64,
    pub address: [u8; 16],
    pub port: u16,
}

/// A network address as a mathematical value.
pub struct AddressData {
    pub services: u64,
    pub address: Seq<u8>,
    pub port: u16,
}

impl View for Address {
    type V = AddressData;

    open spec fn view(&self) -> AddressData {
        AddressData { services: self.services, address: self.address@, port: self.port }
    }
}

/// The record of a socket address: the IPv4 address in its IPv6-mapped form
/// (ten zero bytes, two bytes of ones, the four octets), with the services
/// advertised for it.
pub open spec fn mapped_address(endpoint: EndpointData, services: u64) -> AddressData {
    AddressData {
        services,
        address: seq![0u8, 0u8, 0u8, 0u8, 0u8, 0u8, 0u8, 0u8, 0u8, 0u8, 0xFFu8, 0xFFu8]
            + endpoint.ip,
        port: endpoint.port,
    }
}

impl Address {
    /// The record of a socket address and the services advertised for it.
    pub fn new(socket: &SocketAddress, services: u64) -> (record: Address)
        ensures
            record@ == mapped_address(socket@, services),
    {
        let address: [u8; 16] = [
            0,
            0,
            0,
            0,
            0,
            0,
            0,
            0,
            0,
            0,
            0xFF,
            0xFF,
            socket.ip[0],
            socket.ip[1],
            socket.ip[2],
            socket.ip[3],
        ];
        assert(address@ =~= mapped_address(socket@, services).address);
        Address { services, address, port: socket.port }
    }
}

/// The payload of a `version` message.
#[derive(Clone, Debug, PartialEq, Eq)]
pub struct VersionMessage {
    pub version: i32,
    pub services: u64,
    pub timestamp: i64,
    pub receiver: Address,
    pub sender: Address,
    pub nonce: u64,
    pub user_agent: String,
    pub start_height: i32,
    pub relay: bool,
}

/// A `version` payload as a mathematical value.
pub struct VersionData {
    pub version: i32,
    pub services: u64,
    pub timestamp: i64,
    pub receiver: AddressData,
    pub sender: AddressData,
    pub nonce: u64,
    pub user_agent: Seq<char>,
    pub start_height: i32,
    pub relay: bool,
}

impl View for VersionMessage {
    type V = VersionData;

    open spec fn view(&self) -> VersionData {
        VersionData {
            version: self.version,
            services: self.services,
            timestamp: self.timestamp,
            receiver: self.receiver@,
            sender: self.sender@,
            nonce: self.nonce,
            user_agent: self.user_agent@,
            start_height: self.start_height,
            relay: self.relay,
        }
    }
}

impl VersionMessage {
    /// A `version` message of this client: it speaks the client's protocol
    /// version and asks for no relaying.
    pub fn new(
        services: u64,
        timestamp: i64,
        receiver: Address,
        sender: Address,
        nonce: u64,
        user_agent: String,
        start_height: i32,
    ) -> (message: VersionMessage)
        ensures
            message == (VersionMessage {
                version: PROTOCOL_VERSION,
                services,
                timestamp,
                receiver,
                sender,
                nonce,
                user_agent,
                start_height,
                relay: false,
            }),
    {
        VersionMessage {
            version: PROTOCOL_VERSION,
            services,
            timestamp,
            receiver,
            sender,
            nonce,
            user_agent,
            start_height,
            relay: false,
        }
    }
}

/// What a message says, by kind.
#[derive(Clone, Debug, PartialEq, Eq)]
pub enum NetworkMessage {
    /// `version`: the sender introduces itself.
    Version(VersionMessage),
    /// `verack`: the sender acknowledges a `version`.
    Verack,
    /// Any other kind: its command field and its payload, uninterpreted.
    Other { command: [u8; 12], payload: Vec<u8> },
}

/// A message's content as a mathematical value.
pub enum MessageData {
    Version(VersionData),
    Verack,
    Other { command: Seq<u8>, payload: Seq<u8> },
}

impl View for NetworkMessage {
    type V = MessageData;

    open spec fn view(&self) -> MessageData {
        match self {
            NetworkMessage::Version(v) => MessageData::Version(v@),
            NetworkMessage::Verack => MessageData::Verack,
            NetworkMessage::Other { command, payload } => MessageData::Other {
                command: command@,
                payload: payload@,
            },
        }
    }
}

/// A message together with the magic value of the network it is meant for.
#[derive(Clone, Debug, PartialEq, Eq)]
pub struct RawNetworkMessage {
    pub magic: [u8; 4],
    pub payload: NetworkMessage,
}

/// A framed message as a mathematical value.
pub struct RawMessageData {
    pub magic: Seq<u8>,
    pub payload: MessageData,
}

impl View for RawNetworkMessage {
    type V = RawMessageData;

    open spec fn view(&self) -> RawMessageData {
        RawMessageData { magic: self.magic@, payload: self.payload@ }
    }
}

impl RawNetworkMessage {
    /// Frames a message for the network with the given magic value.
    pub fn new(magic: [u8; 4], payload: NetworkMessage) -> (message: RawNetworkMessage)
        ensures
            message == (RawNetworkMessage { magic, payload }),
    {
        RawNetworkMessage { magic, payload }
    }

    /// The message inside the frame.
    pub fn payload(&self) -> (payload: &NetworkMessage)
        ensures
            *payload == self.payload,
    {
        &self.payload
    }

    /// The magic value of the network the message is meant for.
    pub fn magic(&self) -> (magic: &[u8; 4])
        ensures
            *magic == self.magic,
    {
        &self.magic
    }

    /// Takes the message out of its frame.
    pub fn into_payload(self) -> (payload: NetworkMessage)
        ensures
            payload == self.payload,
    {
        self.payload
    }
}

} // verus!
