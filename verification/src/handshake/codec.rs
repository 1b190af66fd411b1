//! The wire codec: between the bytes of a stream and messages.
//!
//! A message travels as a frame: four bytes of magic, twelve of command,
//! the payload's length in four little-endian bytes, four bytes of checksum,
//! then the payload. Bytes arrive in chunks of any size, so reading a frame
//! has three outcomes: a message, not enough bytes yet, or bytes that can
//! never become a message.

use crate::buffer::{buffer_advance, buffer_bytes, buffer_extend, buffered};
use crate::digest::{checksum, checksum_of};
use crate::encoding::{
    get_le, le_bytes, le_value, lemma_le_bytes_len, lemma_le_value_of_bytes, lemma_radix_values,
    put_bytes, put_le,
};
use crate::message::version::{
    lemma_parse_version_of_bytes, parse_version, version_bytes,
};
use crate::message::{
    mainnet_magic, network_magic, verack_command, version_command, MessageData, NetworkMessage,
    RawMessageData, RawNetworkMessage, VersionMessage, RELAY_VERSION,
};
use bytes::BytesMut;
use vstd::prelude::*;
use vstd::slice::*;

verus! {

/// The number of bytes of a frame that precede the payload.
pub const HEADER_SIZE: usize = 24;

/// The longest payload that a frame may carry.
pub const MAX_PAYLOAD_SIZE: usize = 4_000_000;

/// Why bytes can never become a message.
#[derive(Clone, Copy, Debug, PartialEq, Eq)]
pub enum DecodeError {
    /// The frame does not open with the magic value of the main network.
    BadMagic,
    /// The frame announces a payload longer than any message may carry.
    OversizedPayload,
    /// The checksum in the frame is not that of its payload.
    BadChecksum,
    /// The payload is not what its command says it is.
    MalformedPayload,
}

/// Why a message cannot be written.
#[derive(Clone, Copy, Debug, PartialEq, Eq)]
pub enum EncodeError {
    /// A `version` message sets the relay flag under a protocol version that
    /// has no such field.
    MisplacedRelayFlag,
    /// A message of another kind bears the command of `version` or `verack`.
    ReservedCommand,
    /// The payload is longer than any message may carry.
    OversizedPayload,
}

/// The command field under which a message travels.
pub open spec fn command_of(m: MessageData) -> Seq<u8> {
    match m {
        MessageData::Version(_) => version_command(),
        MessageData::Verack => verack_command(),
        MessageData::Other { command, .. } => command,
    }
}

/// The payload under which a message travels.
pub open spec fn payload_of(m: MessageData) -> Seq<u8> {
    match m {
        MessageData::Version(v) => version_bytes(v),
        MessageData::Verack => Seq::empty(),
        MessageData::Other { payload, .. } => payload,
    }
}

/// What a payload says under a given command. `None` where the command is
/// `version` and the payload is no `version` message, or the command is
/// `verack` and there is a payload at all.
pub open spec fn parse_payload(command: Seq<u8>, payload: Seq<u8>) -> Option<MessageData> {
    if command == version_command() {
        match parse_version(payload) {
            Some(v) => Some(MessageData::Version(v)),
            None => None,
        }
    } else if command == verack_command() {
        if payload.len() == 0 {
            Some(MessageData::Verack)
        } else {
            None
        }
    } else {
        Some(MessageData::Other { command, payload })
    }
}

/// The frame of a message: magic, command, length of the payload, checksum
/// of the payload, payload.
pub open spec fn frame_bytes(m: RawMessageData) -> Seq<u8> {
    let payload = payload_of(m.payload);
    m.magic + command_of(m.payload) + le_bytes(payload.len(), 4) + checksum_of(payload) + payload
}

/// What keeps a message from being written, if anything does.
pub open spec fn encode_error(m: RawMessageData) -> Option<EncodeError> {
    if m.payload matches MessageData::Version(v) && v.relay && v.version < RELAY_VERSION {
        Some(EncodeError::MisplacedRelayFlag)
    } else if m.payload matches MessageData::Other { command, .. } && (command == version_command()
        || command == verack_command()) {
        Some(EncodeError::ReservedCommand)
    } else if payload_of(m.payload).len() > MAX_PAYLOAD_SIZE {
        Some(EncodeError::OversizedPayload)
    } else {
        None
    }
}

/// The outcome of reading a frame, as a mathematical value.
pub enum FrameData {
    /// A whole frame stands at the front: its message and its length.
    Message { message: RawMessageData, consumed: nat },
    /// What is there may be the beginning of a frame, but more is needed.
    Incomplete,
    /// What is there is not the beginning of any frame.
    Invalid(DecodeError),
}

/// What the front of a stream holds. The magic is judged as soon as its four
/// bytes are there, the announced length as soon as the header is, and the
/// checksum and the payload once the announced number of bytes has arrived.
pub open spec fn read_frame(bytes: Seq<u8>) -> FrameData {
    if bytes.len() < 4 {
        FrameData::Incomplete
    } else if bytes.subrange(0, 4) != mainnet_magic() {
        FrameData::Invalid(DecodeError::BadMagic)
    } else if bytes.len() < HEADER_SIZE {
        FrameData::Incomplete
    } else {
        let length = le_value(bytes.subrange(16, 20));
        let payload = bytes.subrange(HEADER_SIZE as int, HEADER_SIZE + length);
        if length > MAX_PAYLOAD_SIZE {
            FrameData::Invalid(DecodeError::OversizedPayload)
        } else if bytes.len() < HEADER_SIZE + length {
            FrameData::Incomplete
        } else if bytes.subrange(20, 24) != checksum_of(payload) {
            FrameData::Invalid(DecodeError::BadChecksum)
        } else {
            match parse_payload(bytes.subrange(4, 16), payload) {
                None => FrameData::Invalid(DecodeError::MalformedPayload),
                Some(m) => FrameData::Message {
                    message: RawMessageData { magic: bytes.subrange(0, 4), payload: m },
                    consumed: HEADER_SIZE as nat + length,
                },
            }
        }
    }
}

/// The outcome of reading a frame.
#[derive(Debug, PartialEq, Eq)]
pub enum Frame {
    /// A whole frame stands at the front: its message and its length.
    Message { message: RawNetworkMessage, consumed: usize },
    /// What is there may be the beginning of a frame, but more is needed.
    Incomplete,
    /// What is there is not the beginning of any frame.
    Invalid(DecodeError),
}

impl View for Frame {
    type V = FrameData;

    open spec fn view(&self) -> FrameData {
        match self {
            Frame::Message { message, consumed } => FrameData::Message {
                message: message@,
                consumed: *consumed as nat,
            },
            Frame::Incomplete => FrameData::Incomplete,
            Frame::Invalid(e) => FrameData::Invalid(*e),
        }
    }
}

/// Whether two runs of bytes are the same.
fn same_bytes(left: &[u8], right: &[u8]) -> (same: bool)
    ensures
        same == (left@ == right@),
{
    if left.len() != right.len() {
        return false;
    }
    let mut at: usize = 0;
    while at < left.len()
        invariant
            at <= left.len(),
            left.len() == right.len(),
            left@.take(at as int) == right@.take(at as int),
        decreases left.len() - at,
    {
        if left[at] != right[at] {
            return false;
        }
        at = at + 1;
        assert(left@.take(at as int) =~= left@.take(at - 1).push(left@[at - 1]));
        assert(right@.take(at as int) =~= right@.take(at - 1).push(right@[at - 1]));
    }
    assert(left@.take(at as int) =~= left@);
    assert(right@.take(at as int) =~= right@);
    true
}

/// The command field of a `version` message.
fn version_command_bytes() -> (command: [u8; 12])
    ensures
        command@ == version_command(),
{
    let command: [u8; 12] = [0x76, 0x65, 0x72, 0x73, 0x69, 0x6F, 0x6E, 0, 0, 0, 0, 0];
    assert(command@ =~= version_command());
    command
}

/// The command field of a `verack` message.
fn verack_command_bytes() -> (command: [u8; 12])
    ensures
        command@ == verack_command(),
{
    let command: [u8; 12] = [0x76, 0x65, 0x72, 0x61, 0x63, 0x6B, 0, 0, 0, 0, 0, 0];
    assert(command@ =~= verack_command());
    command
}

/// Reads what a payload says under a given command.
fn read_payload(command: [u8; 12], payload: &[u8]) -> (found: Option<NetworkMessage>)
    ensures
        match parse_payload(command@, payload@) {
            Some(m) => found matches Some(message) && message@ == m,
            None => found is None,
        },
{
    let version = version_command_bytes();
    let verack = verack_command_bytes();
    if same_bytes(command.as_slice(), version.as_slice()) {
        match VersionMessage::read_from(payload) {
            Some(v) => Some(NetworkMessage::Version(v)),
            None => None,
        }
    } else if same_bytes(command.as_slice(), verack.as_slice()) {
        if payload.len() == 0 {
            Some(NetworkMessage::Verack)
        } else {
            None
        }
    } else {
        Some(NetworkMessage::Other { command, payload: slice_to_vec(payload) })
    }
}

/// Reads the frame at the front of `bytes`, if one is there.
pub fn decode_frame(bytes: &[u8]) -> (frame: Frame)
    ensures
        frame@ == read_frame(bytes@),
{
    if bytes.len() < 4 {
        return Frame::Incomplete;
    }
    let magic: [u8; 4] = [bytes[0], bytes[1], bytes[2], bytes[3]];
    assert(magic@ =~= bytes@.subrange(0, 4));
    let expected = network_magic();
    if !same_bytes(magic.as_slice(), expected.as_slice()) {
        return Frame::Invalid(DecodeError::BadMagic);
    }
    if bytes.len() < HEADER_SIZE {
        return Frame::Incomplete;
    }
    let announced = get_le(bytes, 16, 4);
    if announced > MAX_PAYLOAD_SIZE as u64 {
        return Frame::Invalid(DecodeError::OversizedPayload);
    }
    let length = announced as usize;
    if bytes.len() - HEADER_SIZE < length {
        return Frame::Incomplete;
    }
    let payload = slice_subrange(bytes, HEADER_SIZE, HEADER_SIZE + length);
    let sum = checksum(payload);
    if !same_bytes(slice_subrange(bytes, 20, 24), sum.as_slice()) {
        return Frame::Invalid(DecodeError::BadChecksum);
    }
    let command: [u8; 12] = [
        bytes[4],
        bytes[5],
        bytes[6],
        bytes[7],
        bytes[8],
        bytes[9],
        bytes[10],
        bytes[11],
        bytes[12],
        bytes[13],
        bytes[14],
        bytes[15],
    ];
    assert(command@ =~= bytes@.subrange(4, 16));
    match read_payload(command, payload) {
        None => Frame::Invalid(DecodeError::MalformedPayload),
        Some(message) => Frame::Message {
            message: RawNetworkMessage { magic, payload: message },
            consumed: HEADER_SIZE + length,
        },
    }
}

/// Writes the payload of a message.
fn payload_to_bytes(message: &NetworkMessage) -> (payload: Vec<u8>)
    ensures
        payload@ == payload_of(message@),
{
    let mut payload: Vec<u8> = Vec::new();
    match message {
        NetworkMessage::Version(v) => {
            v.write_to(&mut payload);
        },
        NetworkMessage::Verack => {},
        NetworkMessage::Other { payload: raw, .. } => {
            put_bytes(&mut payload, raw.as_slice());
        },
    }
    assert(payload@ =~= payload_of(message@));
    payload
}

/// Whether a message of another kind bears a command that belongs to
/// `version` or `verack`.
fn is_reserved(command: &[u8; 12]) -> (reserved: bool)
    ensures
        reserved == (command@ == version_command() || command@ == verack_command()),
{
    let version = version_command_bytes();
    let verack = verack_command_bytes();
    same_bytes(command.as_slice(), version.as_slice()) || same_bytes(
        command.as_slice(),
        verack.as_slice(),
    )
}

/// Writes the frame of a message, or says why it cannot be written.
pub fn encode_frame(message: &RawNetworkMessage) -> (written: Result<Vec<u8>, EncodeError>)
    ensures
        match encode_error(message@) {
            None => written matches Ok(frame) && frame@ == frame_bytes(message@),
            Some(e) => written == Err::<Vec<u8>, EncodeError>(e),
        },
{
    let mut frame: Vec<u8> = Vec::new();
    put_bytes(&mut frame, message.magic.as_slice());
    match &message.payload {
        NetworkMessage::Version(v) => {
            if v.relay && v.version < RELAY_VERSION {
                return Err(EncodeError::MisplacedRelayFlag);
            }
            let command = version_command_bytes();
            put_bytes(&mut frame, command.as_slice());
        },
        NetworkMessage::Verack => {
            let command = verack_command_bytes();
            put_bytes(&mut frame, command.as_slice());
        },
        NetworkMessage::Other { command, .. } => {
            if is_reserved(command) {
                return Err(EncodeError::ReservedCommand);
            }
            put_bytes(&mut frame, command.as_slice());
        },
    }
    let payload = payload_to_bytes(&message.payload);
    if payload.len() > MAX_PAYLOAD_SIZE {
        return Err(EncodeError::OversizedPayload);
    }
    put_le(&mut frame, payload.len() as u64, 4);
    let sum = checksum(payload.as_slice());
    put_bytes(&mut frame, sum.as_slice());
    put_bytes(&mut frame, payload.as_slice());
    assert(frame@ =~= frame_bytes(message@));
    Ok(frame)
}

/// The codec of a connection. It keeps nothing between calls.
pub struct BitcoinCodec {}

impl BitcoinCodec {
    /// Takes the next message off the front of a receive queue.
    ///
    /// Where a whole frame stands at the front, its bytes leave the queue and
    /// its message is returned. Where more bytes are needed, or the bytes can
    /// never become a message, the queue is left as it was.
    pub fn decode(&mut self, buf: &mut BytesMut) -> (taken: Result<
        Option<RawNetworkMessage>,
        DecodeError,
    >)
        ensures
            match read_frame(buffered(*old(buf))) {
                FrameData::Message { message, consumed } => {
                    &&& taken matches Ok(Some(m))
                    &&& m@ == message
                    &&& buffered(*final(buf)) == buffered(*old(buf)).skip(consumed as int)
                },
                FrameData::Incomplete => {
                    &&& taken matches Ok(None)
                    &&& buffered(*final(buf)) == buffered(*old(buf))
                },
                FrameData::Invalid(e) => {
                    &&& taken matches Err(found)
                    &&& found == e
                    &&& buffered(*final(buf)) == buffered(*old(buf))
                },
            },
    {
        match decode_frame(buffer_bytes(buf)) {
            Frame::Message { message, consumed } => {
                buffer_advance(buf, consumed);
                Ok(Some(message))
            },
            Frame::Incomplete => Ok(None),
            Frame::Invalid(e) => Err(e),
        }
    }

    /// Appends the frame of a message to a send queue. A message that cannot
    /// be written leaves the queue as it was.
    pub fn encode(&mut self, item: RawNetworkMessage, buf: &mut BytesMut) -> (written: Result<
        (),
        EncodeError,
    >)
        ensures
            match encode_error(item@) {
                None => {
                    &&& written is Ok
                    &&& buffered(*final(buf)) == buffered(*old(buf)) + frame_bytes(item@)
                },
                Some(e) => {
                    &&& written matches Err(found)
                    &&& found == e
                    &&& buffered(*final(buf)) == buffered(*old(buf))
                },
            },
    {
        match encode_frame(&item) {
            Ok(frame) => {
                buffer_extend(buf, frame.as_slice());
                Ok(())
            },
            Err(e) => Err(e),
        }
    }
}

/// How the frame of a message that can be written is laid out, and that its
/// payload is read back as the message.
proof fn lemma_frame_layout(message: RawNetworkMessage)
    requires
        encode_error(message@) is None,
    ensures
        ({
            let frame = frame_bytes(message@);
            let payload = payload_of(message@.payload);
            &&& payload.len() <= MAX_PAYLOAD_SIZE
            &&& frame.len() == HEADER_SIZE + payload.len()
            &&& frame.subrange(0, 4) == message@.magic
            &&& frame.subrange(4, 16) == command_of(message@.payload)
            &&& le_value(frame.subrange(16, 20)) == payload.len()
            &&& frame.subrange(20, 24) == checksum_of(payload)
            &&& frame.subrange(24, frame.len() as int) == payload
            &&& parse_payload(command_of(message@.payload), payload) == Some(message@.payload)
        }),
{
    let m = message@;
    let frame = frame_bytes(m);
    let payload = payload_of(m.payload);
    let command = command_of(m.payload);
    lemma_radix_values();
    lemma_le_bytes_len(payload.len(), 4);
    lemma_le_value_of_bytes(payload.len(), 4);
    assert(version_command()[3] != verack_command()[3]);
    match message.payload {
        NetworkMessage::Version(v) => {
            lemma_parse_version_of_bytes(v@);
        },
        NetworkMessage::Verack => {},
        NetworkMessage::Other { .. } => {},
    }
    assert(command.len() == 12);
    assert(m.magic.len() == 4);
    assert(frame.subrange(0, 4) =~= m.magic);
    assert(frame.subrange(4, 16) =~= command);
    assert(frame.subrange(16, 20) =~= le_bytes(payload.len(), 4));
    assert(frame.subrange(20, 24) =~= checksum_of(payload));
    assert(frame.subrange(24, frame.len() as int) =~= payload);
}

/// What was written is what is read: the frame of a message of the main
/// network, whatever follows it in the stream, is read as that message, and
/// as taking up exactly the frame.
pub proof fn lemma_round_trip(message: RawNetworkMessage, rest: Seq<u8>)
    requires
        encode_error(message@) is None,
        message@.magic == mainnet_magic(),
    ensures
        read_frame(frame_bytes(message@) + rest) == (FrameData::Message {
            message: message@,
            consumed: frame_bytes(message@).len(),
        }),
{
    let frame = frame_bytes(message@);
    let stream = frame + rest;
    let payload = payload_of(message@.payload);
    lemma_frame_layout(message);
    assert(stream.subrange(0, 4) =~= frame.subrange(0, 4));
    assert(stream.subrange(4, 16) =~= frame.subrange(4, 16));
    assert(stream.subrange(16, 20) =~= frame.subrange(16, 20));
    assert(stream.subrange(20, 24) =~= frame.subrange(20, 24));
    assert(stream.subrange(HEADER_SIZE as int, HEADER_SIZE + payload.len()) =~= frame.subrange(
        24,
        frame.len() as int,
    ));
}

/// A frame that has not arrived in full is no error: every proper beginning
/// of the frame of a message of the main network reads as incomplete. Once
/// the remaining bytes have joined it, it reads as the message.
pub proof fn lemma_partial_frame(message: RawNetworkMessage, arrived: int)
    requires
        encode_error(message@) is None,
        message@.magic == mainnet_magic(),
        0 <= arrived < frame_bytes(message@).len(),
    ensures
        read_frame(frame_bytes(message@).take(arrived)) == FrameData::Incomplete,
        read_frame(frame_bytes(message@).take(arrived) + frame_bytes(message@).skip(arrived)) == (
        FrameData::Message { message: message@, consumed: frame_bytes(message@).len() }),
{
    let frame = frame_bytes(message@);
    let begun = frame.take(arrived);
    lemma_frame_layout(message);
    if arrived >= 4 {
        assert(begun.subrange(0, 4) =~= frame.subrange(0, 4));
    }
    if arrived >= HEADER_SIZE {
        assert(begun.subrange(16, 20) =~= frame.subrange(16, 20));
    }
    assert(begun + frame.skip(arrived) =~= frame + Seq::<u8>::empty());
    lemma_round_trip(message, Seq::empty());
}

/// A frame whose checksum was damaged is rejected: change any one byte of
/// the checksum field in the frame of a message of the main network, and
/// what is read is a checksum error, whatever follows the frame.
pub proof fn lemma_corrupt_checksum(message: RawNetworkMessage, at: int, byte: u8, rest: Seq<u8>)
    requires
        encode_error(message@) is None,
        message@.magic == mainnet_magic(),
        20 <= at < 24,
        byte != frame_bytes(message@)[at],
    ensures
        read_frame(frame_bytes(message@).update(at, byte) + rest) == FrameData::Invalid(
            DecodeError::BadChecksum,
        ),
{
    let frame = frame_bytes(message@);
    let damaged = frame.update(at, byte);
    let stream = damaged + rest;
    let payload = payload_of(message@.payload);
    lemma_frame_layout(message);
    assert(stream.subrange(0, 4) =~= frame.subrange(0, 4));
    assert(stream.subrange(16, 20) =~= frame.subrange(16, 20));
    assert(stream.subrange(HEADER_SIZE as int, HEADER_SIZE + payload.len()) =~= frame.subrange(
        24,
        frame.len() as int,
    ));
    assert(stream.subrange(20, 24)[at - 20] == byte);
    assert(frame.subrange(20, 24)[at - 20] == frame[at]);
}

} // verus!
