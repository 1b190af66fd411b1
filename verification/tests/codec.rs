use bitcoin_handshake::handshake::codec::{
    decode_frame, encode_frame, BitcoinCodec, DecodeError, EncodeError, Frame, HEADER_SIZE,
    MAX_PAYLOAD_SIZE,
};
use bitcoin_handshake::handshake::message::{build_version_message, HandshakeConfig};
use bitcoin_handshake::handshake::network::parse_and_validate_address;
use bitcoin_handshake::message::{
    main_network, Address, NetworkMessage, RawNetworkMessage, VersionMessage,
};
use bytes::BytesMut;

fn sample_version(version: i32, relay: bool, user_agent: &str) -> VersionMessage {
    VersionMessage {
        version,
        services: 0x0000_0000_0000_0409,
        timestamp: 1_700_000_000,
        receiver: Address {
            services: 1,
            address: [0, 0, 0, 0, 0, 0, 0, 0, 0, 0, 0xFF, 0xFF, 165, 22, 213, 4],
            port: 8333,
        },
        sender: Address {
            services: 0,
            address: [0x20, 0x01, 0x0d, 0xb8, 0, 0, 0, 0, 0, 0, 0, 0, 0, 0, 0, 1],
            port: 18333,
        },
        nonce: 0xDEAD_BEEF_0BAD_F00D,
        user_agent: user_agent.to_string(),
        start_height: 812_345,
        relay,
    }
}

fn framed(payload: NetworkMessage) -> RawNetworkMessage {
    RawNetworkMessage::new(main_network(), payload)
}

fn wire(message: &RawNetworkMessage) -> Vec<u8> {
    encode_frame(message).unwrap()
}

const VERACK_FRAME: [u8; 24] = [
    0xF9, 0xBE, 0xB4, 0xD9, 0x76, 0x65, 0x72, 0x61, 0x63, 0x6B, 0, 0, 0, 0, 0, 0, 0, 0, 0, 0, 0x5D,
    0xF6, 0xE0, 0xE2,
];

#[test]
fn test_codec_round_trip() {
    let remote_address = parse_and_validate_address("165.22.213.4:8333").unwrap();
    let local_address = parse_and_validate_address("0.0.0.0:0").unwrap();
    let config = HandshakeConfig::new(None, None);
    let original = RawNetworkMessage::new(
        main_network(),
        NetworkMessage::Version(build_version_message(&remote_address, &local_address, &config)),
    );

    let mut bytes = BytesMut::new();
    BitcoinCodec {}.encode(original.clone(), &mut bytes).unwrap();

    let deserialized = BitcoinCodec {}.decode(&mut bytes).unwrap();
    assert_eq!(Some(original), deserialized);
}

#[test]
fn verack_frame_has_the_known_bytes() {
    let frame = wire(&framed(NetworkMessage::Verack));
    assert_eq!(frame, VERACK_FRAME.to_vec());
}

#[test]
fn verack_round_trip_empties_the_queue() {
    let mut bytes = BytesMut::new();
    BitcoinCodec {}.encode(framed(NetworkMessage::Verack), &mut bytes).unwrap();
    assert_eq!(&bytes[..], &VERACK_FRAME[..]);
    let decoded = BitcoinCodec {}.decode(&mut bytes).unwrap();
    assert_eq!(decoded, Some(framed(NetworkMessage::Verack)));
    assert_eq!(bytes.len(), 0);
}

#[test]
fn version_round_trip_for_every_layout() {
    for (version, relay, agent) in [
        (70001, false, "/Satoshi:25.0.0/"),
        (70016, true, "/bitcoin-handshake:0.1.0/"),
        (60002, false, ""),
        (-1, false, "h\u{e9}llo \u{20bf}"),
    ] {
        let original = framed(NetworkMessage::Version(sample_version(version, relay, agent)));
        let mut bytes = BytesMut::new();
        BitcoinCodec {}.encode(original.clone(), &mut bytes).unwrap();
        let decoded = BitcoinCodec {}.decode(&mut bytes).unwrap();
        assert_eq!(decoded, Some(original));
        assert_eq!(bytes.len(), 0);
    }
}

#[test]
fn version_payload_length_follows_the_layout() {
    let with_relay = wire(&framed(NetworkMessage::Version(sample_version(70001, true, "abc"))));
    assert_eq!(with_relay.len(), HEADER_SIZE + 80 + 1 + 3 + 4 + 1);
    assert_eq!(&with_relay[16..20], &[89, 0, 0, 0]);
    assert_eq!(*with_relay.last().unwrap(), 1);
    let without = wire(&framed(NetworkMessage::Version(sample_version(70000, false, "abc"))));
    assert_eq!(without.len(), HEADER_SIZE + 80 + 1 + 3 + 4);
}

#[test]
fn long_user_agent_takes_a_three_byte_length() {
    let agent = "a".repeat(300);
    let original = framed(NetworkMessage::Version(sample_version(70001, false, &agent)));
    let frame = wire(&original);
    assert_eq!(&frame[HEADER_SIZE + 80..HEADER_SIZE + 83], &[0xFD, 0x2C, 0x01]);
    assert_eq!(
        decode_frame(&frame),
        Frame::Message { message: original, consumed: frame.len() }
    );
}

#[test]
fn other_kinds_keep_command_and_payload() {
    let original = framed(NetworkMessage::Other {
        command: *b"ping\0\0\0\0\0\0\0\0",
        payload: vec![1, 2, 3, 4, 5, 6, 7, 8],
    });
    let frame = wire(&original);
    assert_eq!(&frame[4..16], b"ping\0\0\0\0\0\0\0\0");
    assert_eq!(&frame[16..20], &[8, 0, 0, 0]);
    assert_eq!(&frame[24..], &[1, 2, 3, 4, 5, 6, 7, 8]);
    assert_eq!(
        decode_frame(&frame),
        Frame::Message { message: original, consumed: 32 }
    );
}

#[test]
fn every_proper_prefix_is_incomplete() {
    let original = framed(NetworkMessage::Version(sample_version(70001, true, "/agent/")));
    let frame = wire(&original);
    for arrived in 1..frame.len() {
        assert_eq!(decode_frame(&frame[..arrived]), Frame::Incomplete);
        let mut queue = BytesMut::new();
        queue.extend_from_slice(&frame[..arrived]);
        assert_eq!(BitcoinCodec {}.decode(&mut queue), Ok(None));
        assert_eq!(&queue[..], &frame[..arrived]);
        queue.extend_from_slice(&frame[arrived..]);
        assert_eq!(BitcoinCodec {}.decode(&mut queue), Ok(Some(original.clone())));
        assert_eq!(queue.len(), 0);
    }
}

#[test]
fn empty_queue_is_incomplete() {
    let mut queue = BytesMut::new();
    assert_eq!(BitcoinCodec {}.decode(&mut queue), Ok(None));
    assert_eq!(decode_frame(&[]), Frame::Incomplete);
}

#[test]
fn damaged_checksum_is_rejected() {
    let frame = wire(&framed(NetworkMessage::Version(sample_version(70001, false, "/agent/"))));
    for at in 20..24 {
        for flip in [0x01u8, 0x80, 0xFF] {
            let mut damaged = frame.clone();
            damaged[at] ^= flip;
            assert_eq!(decode_frame(&damaged), Frame::Invalid(DecodeError::BadChecksum));
            let mut queue = BytesMut::new();
            queue.extend_from_slice(&damaged);
            assert_eq!(BitcoinCodec {}.decode(&mut queue), Err(DecodeError::BadChecksum));
            assert_eq!(&queue[..], &damaged[..]);
        }
    }
}

#[test]
fn damaged_payload_is_rejected() {
    let mut frame = wire(&framed(NetworkMessage::Version(sample_version(70001, false, "x"))));
    let last = frame.len() - 1;
    frame[last] ^= 1;
    assert_eq!(decode_frame(&frame), Frame::Invalid(DecodeError::BadChecksum));
}

#[test]
fn foreign_magic_is_rejected_at_once() {
    let testnet = [0x0B, 0x11, 0x09, 0x07];
    assert_eq!(decode_frame(&testnet), Frame::Invalid(DecodeError::BadMagic));
    let mut frame = VERACK_FRAME.to_vec();
    frame[0] = 0xFA;
    assert_eq!(decode_frame(&frame), Frame::Invalid(DecodeError::BadMagic));
    assert_eq!(decode_frame(&VERACK_FRAME[..3]), Frame::Incomplete);
}

#[test]
fn oversized_length_is_rejected() {
    let mut frame = VERACK_FRAME.to_vec();
    frame[16..20].copy_from_slice(&(MAX_PAYLOAD_SIZE as u32 + 1).to_le_bytes());
    assert_eq!(decode_frame(&frame), Frame::Invalid(DecodeError::OversizedPayload));
    frame[16..20].copy_from_slice(&(MAX_PAYLOAD_SIZE as u32).to_le_bytes());
    assert_eq!(decode_frame(&frame), Frame::Incomplete);
}

#[test]
fn malformed_payloads_are_rejected() {
    let truncated = framed(NetworkMessage::Other {
        command: *b"version\0\0\0\0\0",
        payload: vec![0; 10],
    });
    assert_eq!(encode_frame(&truncated), Err(EncodeError::ReservedCommand));

    let good = wire(&framed(NetworkMessage::Version(sample_version(70001, false, "abc"))));
    let reframe = |command: &[u8; 12], payload: &[u8]| {
        let mut frame = wire(&framed(NetworkMessage::Other {
            command: *b"zzzzzzzzzzzz",
            payload: payload.to_vec(),
        }));
        frame[4..16].copy_from_slice(command);
        frame
    };
    let payload = &good[HEADER_SIZE..];
    assert!(matches!(
        decode_frame(&reframe(b"version\0\0\0\0\0", payload)),
        Frame::Message { .. }
    ));
    let short = &payload[..payload.len() - 1];
    assert_eq!(
        decode_frame(&reframe(b"version\0\0\0\0\0", short)),
        Frame::Invalid(DecodeError::MalformedPayload)
    );
    let mut long = payload.to_vec();
    long.push(0);
    assert_eq!(
        decode_frame(&reframe(b"version\0\0\0\0\0", &long)),
        Frame::Invalid(DecodeError::MalformedPayload)
    );
    let mut not_text = payload.to_vec();
    not_text[81] = 0xFF;
    assert_eq!(
        decode_frame(&reframe(b"version\0\0\0\0\0", &not_text)),
        Frame::Invalid(DecodeError::MalformedPayload)
    );
    let mut padded_length = payload[..80].to_vec();
    padded_length.extend_from_slice(&[0xFD, 3, 0]);
    padded_length.extend_from_slice(&payload[81..]);
    assert_eq!(
        decode_frame(&reframe(b"version\0\0\0\0\0", &padded_length)),
        Frame::Invalid(DecodeError::MalformedPayload)
    );
    assert_eq!(
        decode_frame(&reframe(b"verack\0\0\0\0\0\0", &[0])),
        Frame::Invalid(DecodeError::MalformedPayload)
    );
}

#[test]
fn relay_byte_counts_as_set_when_not_zero() {
    let good = wire(&framed(NetworkMessage::Version(sample_version(70001, false, ""))));
    let mut payload = good[HEADER_SIZE..].to_vec();
    let last = payload.len() - 1;
    payload[last] = 7;
    let mut frame = wire(&framed(NetworkMessage::Other {
        command: *b"zzzzzzzzzzzz",
        payload,
    }));
    frame[4..16].copy_from_slice(b"version\0\0\0\0\0");
    assert_eq!(
        decode_frame(&frame),
        Frame::Message {
            message: framed(NetworkMessage::Version(sample_version(70001, true, ""))),
            consumed: frame.len(),
        }
    );
}

#[test]
fn messages_that_cannot_be_written() {
    let misplaced = framed(NetworkMessage::Version(sample_version(70000, true, "")));
    assert_eq!(encode_frame(&misplaced), Err(EncodeError::MisplacedRelayFlag));
    let reserved = framed(NetworkMessage::Other {
        command: *b"verack\0\0\0\0\0\0",
        payload: vec![],
    });
    assert_eq!(encode_frame(&reserved), Err(EncodeError::ReservedCommand));
    let oversized = framed(NetworkMessage::Other {
        command: *b"block\0\0\0\0\0\0\0",
        payload: vec![0; MAX_PAYLOAD_SIZE + 1],
    });
    assert_eq!(encode_frame(&oversized), Err(EncodeError::OversizedPayload));
    let mut queue = BytesMut::new();
    queue.extend_from_slice(&[1, 2, 3]);
    assert_eq!(
        BitcoinCodec {}.encode(misplaced, &mut queue),
        Err(EncodeError::MisplacedRelayFlag)
    );
    assert_eq!(&queue[..], &[1, 2, 3]);
}

#[test]
fn largest_payload_is_written_and_read() {
    let original = framed(NetworkMessage::Other {
        command: *b"block\0\0\0\0\0\0\0",
        payload: vec![0xAB; MAX_PAYLOAD_SIZE],
    });
    let frame = wire(&original);
    assert_eq!(frame.len(), HEADER_SIZE + MAX_PAYLOAD_SIZE);
    assert_eq!(
        decode_frame(&frame),
        Frame::Message { message: original, consumed: frame.len() }
    );
}

#[test]
fn messages_in_one_chunk_come_out_in_order() {
    let first = framed(NetworkMessage::Other {
        command: *b"sendheaders\0",
        payload: vec![],
    });
    let second = framed(NetworkMessage::Version(sample_version(70016, true, "/peer/")));
    let third = framed(NetworkMessage::Verack);
    let mut queue = BytesMut::new();
    let mut codec = BitcoinCodec {};
    codec.encode(first.clone(), &mut queue).unwrap();
    codec.encode(second.clone(), &mut queue).unwrap();
    codec.encode(third.clone(), &mut queue).unwrap();
    queue.extend_from_slice(&VERACK_FRAME[..10]);
    assert_eq!(codec.decode(&mut queue), Ok(Some(first)));
    assert_eq!(codec.decode(&mut queue), Ok(Some(second)));
    assert_eq!(codec.decode(&mut queue), Ok(Some(third)));
    assert_eq!(codec.decode(&mut queue), Ok(None));
    assert_eq!(&queue[..], &VERACK_FRAME[..10]);
}

#[test]
fn encode_appends_behind_what_is_queued() {
    let mut queue = BytesMut::new();
    queue.extend_from_slice(&[9, 9]);
    BitcoinCodec {}.encode(framed(NetworkMessage::Verack), &mut queue).unwrap();
    assert_eq!(&queue[..2], &[9, 9]);
    assert_eq!(&queue[2..], &VERACK_FRAME[..]);
}

#[test]
fn accessors_of_a_framed_message() {
    let message = RawNetworkMessage::new([1, 2, 3, 4], NetworkMessage::Verack);
    assert_eq!(message.magic(), &[1, 2, 3, 4]);
    assert_eq!(message.payload(), &NetworkMessage::Verack);
    assert_eq!(message.into_payload(), NetworkMessage::Verack);
    assert_eq!(main_network(), [0xF9, 0xBE, 0xB4, 0xD9]);
}
