//! The layout of a `version` payload and of the address records inside it.

use crate::encoding::{
    be16_bytes, be16_value, compact_size, get_compact_size, get_le, le_bytes, le_value,
    lemma_le_bytes_len, lemma_le_value_of_bytes, lemma_parse_compact_size, lemma_radix_values,
    lemma_signed32_of_unsigned32, lemma_signed64_of_unsigned64, parse_compact_size,
    put_bytes, put_compact_size, put_le, signed32, signed64, to_signed32, to_signed64,
    to_unsigned32, to_unsigned64, unsigned32, unsigned64,
};
use crate::message::{Address, AddressData, VersionData, VersionMessage, RELAY_VERSION};
use vstd::prelude::*;
use vstd::slice::*;
use vstd::utf8::*;

verus! {

/// The size of an address record.
pub const ADDRESS_SIZE: usize = 26;

/// The number of bytes of a `version` payload that precede the user agent.
pub const VERSION_FIXED_SIZE: usize = 80;

/// An address record: the services in eight little-endian bytes, the sixteen
/// bytes of the address, the port in network order.
pub open spec fn address_bytes(a: AddressData) -> Seq<u8> {
    le_bytes(a.services as nat, 8) + a.address + be16_bytes(a.port)
}

/// The address that a record of 26 bytes holds.
pub open spec fn parse_address(record: Seq<u8>) -> AddressData {
    AddressData {
        services: le_value(record.subrange(0, 8)) as u64,
        address: record.subrange(8, 24),
        port: be16_value(record.subrange(24, 26)),
    }
}

/// The relay flag at the end of a `version` payload: one byte from protocol
/// version 70001 on, nothing before.
pub open spec fn relay_bytes(v: VersionData) -> Seq<u8> {
    if v.version >= RELAY_VERSION {
        seq![if v.relay { 1u8 } else { 0u8 }]
    } else {
        Seq::empty()
    }
}

/// The payload of a `version` message: protocol version, services,
/// timestamp, the receiver's and the sender's address records, nonce, the
/// user agent behind its length, the start height, and the relay flag where
/// the protocol version has one.
pub open spec fn version_bytes(v: VersionData) -> Seq<u8> {
    le_bytes(unsigned32(v.version) as nat, 4) + le_bytes(v.services as nat, 8) + le_bytes(
        unsigned64(v.timestamp) as nat,
        8,
    ) + address_bytes(v.receiver) + address_bytes(v.sender) + le_bytes(v.nonce as nat, 8)
        + compact_size(encode_utf8(v.user_agent).len() as u64) + encode_utf8(v.user_agent)
        + le_bytes(unsigned32(v.start_height) as nat, 4) + relay_bytes(v)
}

/// Whether a `version` payload can be written so that it is read back as it
/// was: both addresses have sixteen bytes, the length of the user agent fits
/// its length field, and the relay flag is set only where the protocol
/// version has room for it.
pub open spec fn version_writable(v: VersionData) -> bool {
    &&& v.receiver.address.len() == 16
    &&& v.sender.address.len() == 16
    &&& encode_utf8(v.user_agent).len() <= u64::MAX
    &&& (v.relay ==> v.version >= RELAY_VERSION)
}

/// What a payload says, read as a `version` message. `None` where the
/// payload ends early, runs on past the last field, writes the length of the
/// user agent in a longer form than needed, or holds a user agent that is
/// not UTF-8.
pub open spec fn parse_version(payload: Seq<u8>) -> Option<VersionData> {
    if payload.len() < 80 {
        None
    } else {
        let version = signed32(le_value(payload.subrange(0, 4)) as u32);
        match parse_compact_size(payload.skip(80)) {
            None => None,
            Some((n, width)) => {
                let agent_from = 80 + width;
                let agent_to = agent_from + n;
                let relay_width: nat = if version >= RELAY_VERSION {
                    1
                } else {
                    0
                };
                let agent = payload.subrange(agent_from as int, agent_to as int);
                if payload.len() != agent_to + 4 + relay_width {
                    None
                } else if !valid_utf8(agent) {
                    None
                } else {
                    Some(
                        VersionData {
                            version,
                            services: le_value(payload.subrange(4, 12)) as u64,
                            timestamp: signed64(le_value(payload.subrange(12, 20)) as u64),
                            receiver: parse_address(payload.subrange(20, 46)),
                            sender: parse_address(payload.subrange(46, 72)),
                            nonce: le_value(payload.subrange(72, 80)) as u64,
                            user_agent: decode_utf8(agent),
                            start_height: signed32(
                                le_value(payload.subrange(agent_to as int, agent_to + 4)) as u32,
                            ),
                            relay: version >= RELAY_VERSION && payload[agent_to + 4] != 0,
                        },
                    )
                }
            },
        }
    }
}

/// `String::from_utf8`: the text that the bytes encode where they are valid
/// UTF-8, and nothing where they are not.
#[verifier::external_body]
fn string_from_utf8(bytes: Vec<u8>) -> (text: Option<String>)
    ensures
        text is Some <==> valid_utf8(bytes@),
        text matches Some(t) ==> t@ == decode_utf8(bytes@),
{
    match String::from_utf8(bytes) {
        Ok(text) => Some(text),
        Err(_) => None,
    }
}

impl Address {
    /// Appends the address as a record of 26 bytes.
    pub fn write_to(&self, out: &mut Vec<u8>)
        ensures
            final(out)@ == old(out)@ + address_bytes(self@),
    {
        put_le(out, self.services, 8);
        put_bytes(out, self.address.as_slice());
        out.push((self.port / 256) as u8);
        out.push((self.port % 256) as u8);
        assert(out@ =~= old(out)@ + address_bytes(self@));
    }

    /// Reads the address record that starts at `at`.
    pub fn read_from(bytes: &[u8], at: usize) -> (found: Address)
        requires
            at + 26 <= bytes.len(),
        ensures
            found@ == parse_address(bytes@.subrange(at as int, at + 26)),
    {
        let ghost record = bytes@.subrange(at as int, at + 26);
        let services = get_le(bytes, at, 8);
        let address: [u8; 16] = [
            bytes[at + 8],
            bytes[at + 9],
            bytes[at + 10],
            bytes[at + 11],
            bytes[at + 12],
            bytes[at + 13],
            bytes[at + 14],
            bytes[at + 15],
            bytes[at + 16],
            bytes[at + 17],
            bytes[at + 18],
            bytes[at + 19],
            bytes[at + 20],
            bytes[at + 21],
            bytes[at + 22],
            bytes[at + 23],
        ];
        let port: u16 = (bytes[at + 24] as u16) * 256 + (bytes[at + 25] as u16);
        proof {
            assert(bytes@.subrange(at as int, at + 8) =~= record.subrange(0, 8));
            assert(address@ =~= record.subrange(8, 24));
            assert(record.subrange(24, 26)[0] == bytes[at + 24]);
            assert(record.subrange(24, 26)[1] == bytes[at + 25]);
        }
        Address { services, address, port }
    }
}

impl VersionMessage {
    /// Appends the message as the payload of a `version` message.
    pub fn write_to(&self, out: &mut Vec<u8>)
        ensures
            final(out)@ == old(out)@ + version_bytes(self@),
    {
        put_le(out, to_unsigned32(self.version) as u64, 4);
        put_le(out, self.services, 8);
        put_le(out, to_unsigned64(self.timestamp), 8);
        self.receiver.write_to(out);
        self.sender.write_to(out);
        put_le(out, self.nonce, 8);
        let agent = self.user_agent.as_str().as_bytes();
        put_compact_size(out, agent.len() as u64);
        put_bytes(out, agent);
        put_le(out, to_unsigned32(self.start_height) as u64, 4);
        if self.version >= RELAY_VERSION {
            out.push(if self.relay { 1 } else { 0 });
        }
        assert(out@ =~= old(out)@ + version_bytes(self@));
    }

    /// Reads a whole payload as a `version` message.
    pub fn read_from(payload: &[u8]) -> (found: Option<VersionMessage>)
        ensures
            match parse_version(payload@) {
                Some(v) => found matches Some(m) && m@ == v,
                None => found is None,
            },
    {
        if payload.len() < 80 {
            return None;
        }
        let version = to_signed32(get_le(payload, 0, 4) as u32);
        let (n, width) = match get_compact_size(payload, 80) {
            None => { return None; },
            Some(sized) => sized,
        };
        let agent_from = 80 + width;
        let relay_width: usize = if version >= RELAY_VERSION {
            1
        } else {
            0
        };
        let left = payload.len() - agent_from;
        if left < 4 + relay_width || n != (left - 4 - relay_width) as u64 {
            return None;
        }
        let agent_to = payload.len() - 4 - relay_width;
        let agent = slice_to_vec(slice_subrange(payload, agent_from, agent_to));
        let user_agent = match string_from_utf8(agent) {
            None => { return None; },
            Some(text) => text,
        };
        Some(
            VersionMessage {
                version,
                services: get_le(payload, 4, 8),
                timestamp: to_signed64(get_le(payload, 12, 8)),
                receiver: Address::read_from(payload, 20),
                sender: Address::read_from(payload, 46),
                nonce: get_le(payload, 72, 8),
                user_agent,
                start_height: to_signed32(get_le(payload, agent_to, 4) as u32),
                relay: version >= RELAY_VERSION && payload[agent_to + 4] != 0,
            },
        )
    }
}

/// An address record has 26 bytes and holds the address it was written from.
pub proof fn lemma_parse_address_of_bytes(a: AddressData)
    requires
        a.address.len() == 16,
    ensures
        address_bytes(a).len() == 26,
        parse_address(address_bytes(a)) == a,
{
    let record = address_bytes(a);
    lemma_radix_values();
    lemma_le_bytes_len(a.services as nat, 8);
    lemma_le_value_of_bytes(a.services as nat, 8);
    assert(record.subrange(0, 8) =~= le_bytes(a.services as nat, 8));
    assert(record.subrange(8, 24) =~= a.address);
    assert(record.subrange(24, 26) =~= be16_bytes(a.port));
}

/// A `version` payload holds the message it was written from.
pub proof fn lemma_parse_version_of_bytes(v: VersionData)
    requires
        version_writable(v),
    ensures
        parse_version(version_bytes(v)) == Some(v),
{
    let agent = encode_utf8(v.user_agent);
    let n = agent.len() as u64;
    let height = le_bytes(unsigned32(v.start_height) as nat, 4);
    let tail = agent + height + relay_bytes(v);
    let head = le_bytes(unsigned32(v.version) as nat, 4) + le_bytes(v.services as nat, 8)
        + le_bytes(unsigned64(v.timestamp) as nat, 8) + address_bytes(v.receiver) + address_bytes(
        v.sender,
    ) + le_bytes(v.nonce as nat, 8);
    let payload = version_bytes(v);
    lemma_radix_values();
    lemma_le_bytes_len(unsigned32(v.version) as nat, 4);
    lemma_le_bytes_len(v.services as nat, 8);
    lemma_le_bytes_len(unsigned64(v.timestamp) as nat, 8);
    lemma_le_bytes_len(v.nonce as nat, 8);
    lemma_le_bytes_len(unsigned32(v.start_height) as nat, 4);
    lemma_parse_address_of_bytes(v.receiver);
    lemma_parse_address_of_bytes(v.sender);
    assert(head.len() == 80);
    assert(payload =~= head + (compact_size(n) + tail));
    assert(payload.skip(80) =~= compact_size(n) + tail);
    lemma_parse_compact_size(n, tail);
    let width = compact_size(n).len();
    let agent_from = 80 + width;
    let agent_to = agent_from + n;

    assert(payload.subrange(0, 4) =~= le_bytes(unsigned32(v.version) as nat, 4));
    lemma_le_value_of_bytes(unsigned32(v.version) as nat, 4);
    lemma_signed32_of_unsigned32(v.version);
    assert(payload.subrange(4, 12) =~= le_bytes(v.services as nat, 8));
    lemma_le_value_of_bytes(v.services as nat, 8);
    assert(payload.subrange(12, 20) =~= le_bytes(unsigned64(v.timestamp) as nat, 8));
    lemma_le_value_of_bytes(unsigned64(v.timestamp) as nat, 8);
    lemma_signed64_of_unsigned64(v.timestamp);
    assert(payload.subrange(20, 46) =~= address_bytes(v.receiver));
    assert(payload.subrange(46, 72) =~= address_bytes(v.sender));
    assert(payload.subrange(72, 80) =~= le_bytes(v.nonce as nat, 8));
    lemma_le_value_of_bytes(v.nonce as nat, 8);

    assert(payload.subrange(agent_from as int, agent_to as int) =~= agent);
    encode_utf8_valid_utf8(v.user_agent);
    encode_utf8_decode_utf8(v.user_agent);
    assert(payload.subrange(agent_to as int, agent_to + 4) =~= height);
    lemma_le_value_of_bytes(unsigned32(v.start_height) as nat, 4);
    lemma_signed32_of_unsigned32(v.start_height);
    if v.version >= RELAY_VERSION {
        assert(payload[agent_to + 4] == relay_bytes(v)[0]);
    }
}

} // verus!
