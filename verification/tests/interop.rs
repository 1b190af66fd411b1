use bitcoin::consensus::{deserialize_partial, serialize};
use bitcoin::p2p::message::{CommandString, NetworkMessage as TheirMessage, RawNetworkMessage as TheirRaw};
use bitcoin::p2p::message_network::VersionMessage as TheirVersion;
use bitcoin::p2p::{Address as TheirAddress, ServiceFlags};
use bitcoin::Network;
use bitcoin_handshake::handshake::codec::{decode_frame, encode_frame, Frame};
use bitcoin_handshake::message::{
    main_network, Address, NetworkMessage, RawNetworkMessage, VersionMessage,
};

fn words(address: [u8; 16]) -> [u16; 8] {
    let mut out = [0u16; 8];
    for i in 0..8 {
        out[i] = u16::from_be_bytes([address[2 * i], address[2 * i + 1]]);
    }
    out
}

fn theirs_of_address(a: &Address) -> TheirAddress {
    TheirAddress {
        services: ServiceFlags::from(a.services),
        address: words(a.address),
        port: a.port,
    }
}

fn theirs_of_version(v: &VersionMessage) -> TheirVersion {
    TheirVersion {
        version: v.version as u32,
        services: ServiceFlags::from(v.services),
        timestamp: v.timestamp,
        receiver: theirs_of_address(&v.receiver),
        sender: theirs_of_address(&v.sender),
        nonce: v.nonce,
        user_agent: v.user_agent.clone(),
        start_height: v.start_height,
        relay: v.relay,
    }
}

fn samples() -> Vec<VersionMessage> {
    let mut out = Vec::new();
    for (version, relay, agent, timestamp, height) in [
        (70001, false, String::new(), 0i64, 0i32),
        (70016, true, "/Satoshi:25.0.0/".to_string(), 1_700_000_000, 812_345),
        (70001, true, "x".repeat(253), -1, -1),
        (i32::MAX, false, "h\u{e9}llo \u{20bf}".to_string(), i64::MIN, i32::MIN),
    ] {
        out.push(VersionMessage {
            version,
            services: 0x0409,
            timestamp,
            receiver: Address {
                services: 1,
                address: [0, 0, 0, 0, 0, 0, 0, 0, 0, 0, 0xFF, 0xFF, 165, 22, 213, 4],
                port: 8333,
            },
            sender: Address {
                services: u64::MAX,
                address: [0x20, 0x01, 0x0d, 0xb8, 0, 0, 0, 0, 0, 0, 0, 0, 0xAB, 0xCD, 0, 1],
                port: 0xFFFE,
            },
            nonce: 0xDEAD_BEEF_0BAD_F00D,
            user_agent: agent,
            start_height: height,
            relay,
        });
    }
    out
}

#[test]
fn magic_is_that_of_the_main_network() {
    assert_eq!(main_network(), Network::Bitcoin.magic().to_bytes());
}

#[test]
fn version_frames_agree_with_the_bitcoin_crate() {
    for ours in samples() {
        let theirs = TheirRaw::new(
            Network::Bitcoin.magic(),
            TheirMessage::Version(theirs_of_version(&ours)),
        );
        let framed = RawNetworkMessage::new(main_network(), NetworkMessage::Version(ours));
        let frame = encode_frame(&framed).unwrap();
        assert_eq!(frame, serialize(&theirs));

        let (read, consumed) = deserialize_partial::<TheirRaw>(&frame).unwrap();
        assert_eq!(read, theirs);
        assert_eq!(consumed, frame.len());

        assert_eq!(
            decode_frame(&serialize(&theirs)),
            Frame::Message { message: framed, consumed: frame.len() }
        );
    }
}

#[test]
fn verack_frames_agree_with_the_bitcoin_crate() {
    let theirs = TheirRaw::new(Network::Bitcoin.magic(), TheirMessage::Verack);
    let ours = RawNetworkMessage::new(main_network(), NetworkMessage::Verack);
    assert_eq!(encode_frame(&ours).unwrap(), serialize(&theirs));
    assert_eq!(
        decode_frame(&serialize(&theirs)),
        Frame::Message { message: ours, consumed: 24 }
    );
}

#[test]
fn other_frames_agree_with_the_bitcoin_crate() {
    let ping = TheirRaw::new(Network::Bitcoin.magic(), TheirMessage::Ping(0x0102_0304_0506_0708));
    assert_eq!(
        decode_frame(&serialize(&ping)),
        Frame::Message {
            message: RawNetworkMessage::new(
                main_network(),
                NetworkMessage::Other {
                    command: *b"ping\0\0\0\0\0\0\0\0",
                    payload: vec![8, 7, 6, 5, 4, 3, 2, 1],
                }
            ),
            consumed: 32,
        }
    );

    let unknown = TheirRaw::new(
        Network::Bitcoin.magic(),
        TheirMessage::Unknown {
            command: CommandString::try_from_static("mystery").unwrap(),
            payload: vec![1, 2, 3],
        },
    );
    let ours = RawNetworkMessage::new(
        main_network(),
        NetworkMessage::Other { command: *b"mystery\0\0\0\0\0", payload: vec![1, 2, 3] },
    );
    assert_eq!(encode_frame(&ours).unwrap(), serialize(&unknown));
    let (read, consumed) = deserialize_partial::<TheirRaw>(&encode_frame(&ours).unwrap()).unwrap();
    assert_eq!(read, unknown);
    assert_eq!(consumed, 27);
}

#[test]
fn frames_of_another_network_are_rejected() {
    let theirs = TheirRaw::new(Network::Testnet.magic(), TheirMessage::Verack);
    assert!(matches!(decode_frame(&serialize(&theirs)), Frame::Invalid(_)));
}
