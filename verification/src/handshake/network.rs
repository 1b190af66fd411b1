//! Whom to connect to, and what came of trying.
//!
//! The client speaks to IPv4 peers only. An address is accepted where it
//! reads as an IPv4 socket address, told apart as unsupported where it reads
//! as an IPv6 literal, and rejected as unparseable otherwise. Opening the
//! connection is the caller's business; what its outcome means is decided
//! here.

use crate::handshake::error::ConnectionError;
use vstd::prelude::*;
use vstd::utf8::encode_utf8;

verus! {

/// How long an attempt to connect may take, in milliseconds.
pub const TIMEOUT_MILLIS: u64 = 500;

/// An IPv4 socket address.
#[derive(Clone, Copy, Debug, PartialEq, Eq)]
pub struct SocketAddress {
    pub ip: [u8; 4],
    pub port: u16,
}

/// A socket address as a mathematical value.
pub struct EndpointData {
    pub ip: Seq<u8>,
    pub port: u16,
}

impl View for SocketAddress {
    type V = EndpointData;

    open spec fn view(&self) -> EndpointData {
        EndpointData { ip: self.ip@, port: self.port }
    }
}

/// Why a text is no address to connect to.
#[derive(Clone, Copy, Debug, PartialEq, Eq)]
pub enum AddressError {
    /// The text is neither an IPv4 socket address nor an IPv6 literal.
    Unparseable,
    /// The text is an IPv6 literal, and IPv6 is not supported.
    UnsupportedFamily,
}

/// Whether a byte is a decimal digit.
pub open spec fn is_digit(b: u8) -> bool {
    0x30 <= b <= 0x39
}

/// Whether a byte is a hexadecimal digit, in either case.
pub open spec fn is_hex_digit(b: u8) -> bool {
    is_digit(b) || 0x41 <= b <= 0x46 || 0x61 <= b <= 0x66
}

/// The end of the longest run of digits that starts at `from`: decimal
/// digits, or hexadecimal ones where `hex` is set.
pub open spec fn run_end(text: Seq<u8>, from: int, hex: bool) -> int
    decreases text.len() - from,
{
    if 0 <= from < text.len() && (if hex {
        is_hex_digit(text[from])
    } else {
        is_digit(text[from])
    }) {
        run_end(text, from + 1, hex)
    } else {
        from
    }
}

/// The number that decimal digits spell.
pub open spec fn decimal_value(digits: Seq<u8>) -> nat
    decreases digits.len(),
{
    if digits.len() == 0 {
        0
    } else {
        10 * decimal_value(digits.drop_last()) + (digits.last() - 0x30) as nat
    }
}

/// The number at `from` and where it ends: the longest run of decimal digits
/// there, if it has a digit and spells no more than `ceiling`.
pub open spec fn number_at(text: Seq<u8>, from: int, ceiling: nat) -> Option<(nat, int)> {
    let end = run_end(text, from, false);
    let value = decimal_value(text.subrange(from, end));
    if 0 <= from < end && value <= ceiling {
        Some((value, end))
    } else {
        None
    }
}

/// The octet at `from` and where it ends: one to three decimal digits that
/// spell no more than 255, without a leading zero before another digit.
pub open spec fn octet_at(text: Seq<u8>, from: int) -> Option<(u8, int)> {
    match number_at(text, from, 255) {
        None => None,
        Some((value, end)) => if end - from > 3 || (end - from > 1 && text[from] == 0x30) {
            None
        } else {
            Some((value as u8, end))
        },
    }
}

/// The `count` octets at `from`, with a dot between each two, and where they
/// end.
pub open spec fn octets_at(text: Seq<u8>, from: int, count: nat) -> Option<(Seq<u8>, int)>
    decreases count,
{
    match octet_at(text, from) {
        None => None,
        Some((value, end)) => if count <= 1 {
            Some((seq![value], end))
        } else if end < text.len() && text[end] == 0x2E {
            match octets_at(text, end + 1, (count - 1) as nat) {
                None => None,
                Some((rest, last)) => Some((seq![value] + rest, last)),
            }
        } else {
            None
        },
    }
}

/// Whether a colon and a port, and nothing else, stand at `from`: the port
/// is a run of decimal digits that spells no more than 65535.
pub open spec fn port_at(text: Seq<u8>, from: int) -> Option<u16> {
    if 0 <= from < text.len() && text[from] == 0x3A {
        match number_at(text, from + 1, 65535) {
            None => None,
            Some((value, end)) => if end == text.len() {
                Some(value as u16)
            } else {
                None
            },
        }
    } else {
        None
    }
}

/// The IPv4 socket address that a text spells: four octets with dots
/// between them, a colon, a port.
pub open spec fn parse_ipv4_endpoint(text: Seq<u8>) -> Option<EndpointData> {
    match octets_at(text, 0, 4) {
        None => None,
        Some((ip, end)) => match port_at(text, end) {
            None => None,
            Some(port) => Some(EndpointData { ip, port }),
        },
    }
}

/// Reads groups of an IPv6 address from `from` on, up to `limit` of them
/// with `read` already read, and says where reading stopped, how many groups
/// are read then, and whether the last was an embedded IPv4 address.
///
/// A group is one to four hexadecimal digits; every group but the first
/// follows a colon. Where two groups or more are still allowed, four dotted
/// octets may stand for two groups, and nothing follows them. Reading stops
/// before the first thing that is no group.
pub open spec fn groups_at(text: Seq<u8>, from: int, read: nat, limit: nat) -> (int, nat, bool)
    decreases limit - read,
{
    let start = if read == 0 {
        from
    } else {
        from + 1
    };
    let end = run_end(text, start, true);
    if read >= limit || from < 0 {
        (from, read, false)
    } else if read > 0 && !(from < text.len() && text[from] == 0x3A) {
        (from, read, false)
    } else {
        let embedded = if read + 1 < limit {
            octets_at(text, start, 4)
        } else {
            None
        };
        match embedded {
            Some((_, last)) => (last, read + 2, true),
            None => if 1 <= end - start <= 4 {
                groups_at(text, end, read + 1, limit)
            } else {
                (from, read, false)
            },
        }
    }
}

/// Where the IPv6 address that starts at `from` ends, if one starts there:
/// either eight groups, or fewer with one `::` among them that stands for
/// the groups left out, at least one.
pub open spec fn ipv6_end(text: Seq<u8>, from: int) -> Option<int> {
    let (at, head, embedded) = groups_at(text, from, 0, 8);
    if head == 8 {
        Some(at)
    } else if embedded {
        None
    } else if 0 <= at && at + 1 < text.len() && text[at] == 0x3A && text[at + 1] == 0x3A {
        Some(groups_at(text, at + 2, 0, (7 - head) as nat).0)
    } else {
        None
    }
}

/// Whether a text is an IPv6 socket address: an IPv6 address in square
/// brackets, with a scope after a percent sign if it has one, and a port
/// behind a colon.
pub open spec fn is_ipv6_endpoint(text: Seq<u8>) -> bool {
    text.len() > 0 && text[0] == 0x5B && match ipv6_end(text, 1) {
        None => false,
        Some(end) => {
            let close = if end < text.len() && text[end] == 0x25 {
                match number_at(text, end + 1, 0xFFFF_FFFF) {
                    Some((_, last)) => last,
                    None => -1,
                }
            } else {
                end
            };
            0 <= close < text.len() && text[close] == 0x5D && port_at(text, close + 1) is Some
        },
    }
}

/// Whether a text is an IPv6 literal: an IPv6 address by itself, or an IPv6
/// socket address.
pub open spec fn is_ipv6_literal(text: Seq<u8>) -> bool {
    ipv6_end(text, 0) == Some(text.len() as int) || is_ipv6_endpoint(text)
}

/// What a text is worth as an address to connect to.
pub open spec fn validate(text: Seq<u8>) -> Result<EndpointData, AddressError> {
    match parse_ipv4_endpoint(text) {
        Some(endpoint) => Ok(endpoint),
        None => if is_ipv6_literal(text) {
            Err(AddressError::UnsupportedFamily)
        } else {
            Err(AddressError::Unparseable)
        },
    }
}

/// No text is both: what reads as an IPv6 literal never reads as an IPv4
/// socket address, so every IPv6 literal is turned away as unsupported.
pub proof fn lemma_ipv6_literal_is_unsupported(text: Seq<u8>)
    requires
        is_ipv6_literal(text),
    ensures
        validate(text) == Err::<EndpointData, AddressError>(AddressError::UnsupportedFamily),
{
    if parse_ipv4_endpoint(text) is Some {
        assert(octets_at(text, 0, 4) is Some);
        assert(octet_at(text, 0) is Some);
        assert(run_end(text, 0, false) > 0);
        assert(is_digit(text[0]));
        assert(groups_at(text, 0, 0, 8).2);
        assert(ipv6_end(text, 0) is None);
        assert(!is_ipv6_endpoint(text));
    }
}

/// A number in decimal digits, without leading zeros.
pub open spec fn decimal_text(n: nat) -> Seq<u8>
    decreases n,
{
    if n < 10 {
        seq![(0x30 + n) as u8]
    } else {
        decimal_text(n / 10).push((0x30 + n % 10) as u8)
    }
}

/// An IPv4 socket address as it is usually written: the four octets in
/// decimal with dots between them, a colon, the port in decimal.
pub open spec fn endpoint_text(endpoint: EndpointData) -> Seq<u8> {
    decimal_text(endpoint.ip[0] as nat) + seq![0x2Eu8] + decimal_text(endpoint.ip[1] as nat)
        + seq![0x2Eu8] + decimal_text(endpoint.ip[2] as nat) + seq![0x2Eu8] + decimal_text(
        endpoint.ip[3] as nat,
    ) + seq![0x3Au8] + decimal_text(endpoint.port as nat)
}

/// What `decimal_text` writes: digits only, at least one, no zero in front
/// of a number that is not zero, and a text that spells the number.
proof fn lemma_decimal_text(n: nat)
    ensures
        decimal_text(n).len() >= 1,
        forall|i: int| 0 <= i < decimal_text(n).len() ==> is_digit(#[trigger] decimal_text(n)[i]),
        n >= 1 ==> decimal_text(n)[0] != 0x30,
        n < 10 ==> decimal_text(n).len() == 1,
        decimal_value(decimal_text(n)) == n,
    decreases n,
{
    let text = decimal_text(n);
    if n < 10 {
        assert(text.drop_last() =~= Seq::<u8>::empty());
        assert(decimal_value(text.drop_last()) == 0);
    } else {
        lemma_decimal_text(n / 10);
        assert(text.drop_last() =~= decimal_text(n / 10));
    }
}

/// An octet is written in three digits at most.
proof fn lemma_decimal_text_of_octet(n: nat)
    requires
        n <= 255,
    ensures
        decimal_text(n).len() <= 3,
{
    reveal_with_fuel(decimal_text, 3);
}

/// A run of digits ends where something else begins.
proof fn lemma_run_end_of_digits(text: Seq<u8>, from: int, end: int)
    requires
        0 <= from <= end <= text.len(),
        forall|i: int| from <= i < end ==> is_digit(#[trigger] text[i]),
        end == text.len() || !is_digit(text[end]),
    ensures
        run_end(text, from, false) == end,
    decreases end - from,
{
    if from < end {
        lemma_run_end_of_digits(text, from + 1, end);
    }
}

/// A number written in decimal at `from`, with no digit behind it, is read
/// as that number.
proof fn lemma_number_is_read(text: Seq<u8>, from: int, n: nat, ceiling: nat)
    requires
        0 <= from,
        from + decimal_text(n).len() <= text.len(),
        text.subrange(from, from + decimal_text(n).len()) == decimal_text(n),
        from + decimal_text(n).len() == text.len() || !is_digit(
            text[from + decimal_text(n).len()],
        ),
        n <= ceiling,
    ensures
        number_at(text, from, ceiling) == Some((n, from + decimal_text(n).len())),
        n <= 255 ==> octet_at(text, from) == Some((n as u8, from + decimal_text(n).len())),
{
    let written = decimal_text(n);
    let end = from + written.len();
    lemma_decimal_text(n);
    assert forall|i: int| from <= i < end implies is_digit(#[trigger] text[i]) by {
        assert(text[i] == written[i - from]);
    }
    lemma_run_end_of_digits(text, from, end);
    if n <= 255 {
        lemma_decimal_text_of_octet(n);
        assert(text[from] == written[0]);
        assert(number_at(text, from, 255) == Some((n, end)));
    }
}

/// The usual way of writing an IPv4 socket address is read as that address.
pub proof fn lemma_endpoint_text_is_read(endpoint: EndpointData)
    requires
        endpoint.ip.len() == 4,
    ensures
        parse_ipv4_endpoint(endpoint_text(endpoint)) == Some(endpoint),
        validate(endpoint_text(endpoint)) == Ok::<EndpointData, AddressError>(endpoint),
{
    let text = endpoint_text(endpoint);
    let first = decimal_text(endpoint.ip[0] as nat);
    let second = decimal_text(endpoint.ip[1] as nat);
    let third = decimal_text(endpoint.ip[2] as nat);
    let fourth = decimal_text(endpoint.ip[3] as nat);
    let port = decimal_text(endpoint.port as nat);
    let at1 = first.len() + 1;
    let at2 = at1 + second.len() + 1;
    let at3 = at2 + third.len() + 1;
    let at4 = at3 + fourth.len() + 1;
    lemma_decimal_text(endpoint.ip[0] as nat);
    lemma_decimal_text(endpoint.ip[1] as nat);
    lemma_decimal_text(endpoint.ip[2] as nat);
    lemma_decimal_text(endpoint.ip[3] as nat);
    lemma_decimal_text(endpoint.port as nat);
    assert(text.len() == at4 + port.len());
    assert(text.subrange(0, at1 - 1) =~= first);
    assert(text[at1 - 1] == 0x2E);
    assert(text.subrange(at1 as int, at2 - 1) =~= second);
    assert(text[at2 - 1] == 0x2E);
    assert(text.subrange(at2 as int, at3 - 1) =~= third);
    assert(text[at3 - 1] == 0x2E);
    assert(text.subrange(at3 as int, at4 - 1) =~= fourth);
    assert(text[at4 - 1] == 0x3A);
    assert(text.subrange(at4 as int, text.len() as int) =~= port);
    lemma_number_is_read(text, 0, endpoint.ip[0] as nat, 255);
    lemma_number_is_read(text, at1 as int, endpoint.ip[1] as nat, 255);
    lemma_number_is_read(text, at2 as int, endpoint.ip[2] as nat, 255);
    lemma_number_is_read(text, at3 as int, endpoint.ip[3] as nat, 255);
    lemma_number_is_read(text, at4 as int, endpoint.port as nat, 65535);
    reveal_with_fuel(octets_at, 4);
    match octets_at(text, 0, 4) {
        Some((ip, end)) => {
            assert(ip =~= endpoint.ip);
            assert(end == at4 - 1);
        },
        None => {
            assert(false);
        },
    }
}

/// The end of the run of digits that starts at `from`.
fn scan_run(text: &[u8], from: usize, hex: bool) -> (end: usize)
    requires
        from <= text.len(),
    ensures
        end == run_end(text@, from as int, hex),
        from <= end <= text.len(),
{
    let mut at: usize = from;
    while at < text.len() && (text[at] >= 0x30 && text[at] <= 0x39 || hex && (text[at] >= 0x41
        && text[at] <= 0x46 || text[at] >= 0x61 && text[at] <= 0x66))
        invariant
            from <= at <= text.len(),
            run_end(text@, at as int, hex) == run_end(text@, from as int, hex),
        decreases text.len() - at,
    {
        at = at + 1;
    }
    at
}

/// A longer run of digits spells no less.
proof fn lemma_decimal_value_grows(digits: Seq<u8>, shorter: int)
    requires
        0 <= shorter <= digits.len(),
        forall|i: int| 0 <= i < digits.len() ==> is_digit(#[trigger] digits[i]),
    ensures
        decimal_value(digits.take(shorter)) <= decimal_value(digits),
    decreases digits.len(),
{
    if shorter < digits.len() {
        lemma_decimal_value_grows(digits.drop_last(), shorter);
        assert(digits.drop_last().take(shorter) =~= digits.take(shorter));
    } else {
        assert(digits.take(shorter) =~= digits);
    }
}

/// Every byte before the end of a run belongs to it.
proof fn lemma_run_holds_digits(text: Seq<u8>, from: int, hex: bool)
    requires
        0 <= from <= text.len(),
    ensures
        from <= run_end(text, from, hex) <= text.len(),
        forall|i: int|
            from <= i < run_end(text, from, hex) ==> if hex {
                is_hex_digit(#[trigger] text[i])
            } else {
                is_digit(text[i])
            },
    decreases text.len() - from,
{
    if from < text.len() && (if hex {
        is_hex_digit(text[from])
    } else {
        is_digit(text[from])
    }) {
        lemma_run_holds_digits(text, from + 1, hex);
    }
}

/// Reads the number at `from`.
fn read_number(text: &[u8], from: usize, ceiling: u32) -> (found: Option<(u32, usize)>)
    requires
        from <= text.len(),
    ensures
        match number_at(text@, from as int, ceiling as nat) {
            Some((value, end)) => found == Some((value as u32, end as usize)) && from < end
                <= text.len() && value <= ceiling,
            None => found is None,
        },
{
    let end = scan_run(text, from, false);
    if end == from {
        return None;
    }
    let ghost digits = text@.subrange(from as int, end as int);
    proof {
        lemma_run_holds_digits(text@, from as int, false);
    }
    let mut value: u64 = 0;
    let mut at: usize = from;
    while at < end
        invariant
            from <= at <= end <= text.len(),
            end == run_end(text@, from as int, false),
            digits == text@.subrange(from as int, end as int),
            forall|i: int| 0 <= i < digits.len() ==> is_digit(#[trigger] digits[i]),
            value == decimal_value(digits.take(at - from)),
            value <= ceiling,
        decreases end - at,
    {
        proof {
            let longer = digits.take(at - from + 1);
            assert(digits[at - from] == text@[at as int]);
            assert(longer.drop_last() =~= digits.take(at - from));
            assert(longer.last() == text@[at as int]);
            lemma_decimal_value_grows(digits, at - from + 1);
        }
        let digit = text[at] - 0x30;
        value = value * 10 + digit as u64;
        at = at + 1;
        if value > ceiling as u64 {
            return None;
        }
    }
    assert(digits.take(at - from) =~= digits);
    Some((value as u32, end))
}

/// Reads the octet at `from`.
fn read_octet(text: &[u8], from: usize) -> (found: Option<(u8, usize)>)
    requires
        from <= text.len(),
    ensures
        match octet_at(text@, from as int) {
            Some((value, end)) => found == Some((value, end as usize)) && from < end
                <= text.len(),
            None => found is None,
        },
{
    match read_number(text, from, 255) {
        None => None,
        Some((value, end)) => if end - from > 3 || (end - from > 1 && text[from] == 0x30) {
            None
        } else {
            Some((value as u8, end))
        },
    }
}

/// Reads four dotted octets at `from`.
fn read_octets(text: &[u8], from: usize) -> (found: Option<([u8; 4], usize)>)
    requires
        from <= text.len(),
    ensures
        match octets_at(text@, from as int, 4) {
            Some((ip, end)) => found matches Some(read) && read.0@ == ip && read.1 == end
                && from < end <= text.len(),
            None => found is None,
        },
{
    reveal_with_fuel(octets_at, 4);
    let (first, end) = match read_octet(text, from) {
        None => { return None; },
        Some(read) => read,
    };
    if end >= text.len() || text[end] != 0x2E {
        return None;
    }
    let (second, end) = match read_octet(text, end + 1) {
        None => { return None; },
        Some(read) => read,
    };
    if end >= text.len() || text[end] != 0x2E {
        return None;
    }
    let (third, end) = match read_octet(text, end + 1) {
        None => { return None; },
        Some(read) => read,
    };
    if end >= text.len() || text[end] != 0x2E {
        return None;
    }
    let (fourth, end) = match read_octet(text, end + 1) {
        None => { return None; },
        Some(read) => read,
    };
    let ip: [u8; 4] = [first, second, third, fourth];
    assert(ip@ =~= seq![first] + (seq![second] + (seq![third] + seq![fourth])));
    Some((ip, end))
}

/// Reads a colon and a port that close the text.
fn read_port(text: &[u8], from: usize) -> (found: Option<u16>)
    requires
        from <= text.len(),
    ensures
        found == port_at(text@, from as int),
{
    if from >= text.len() || text[from] != 0x3A {
        return None;
    }
    match read_number(text, from + 1, 65535) {
        None => None,
        Some((value, end)) => if end == text.len() {
            Some(value as u16)
        } else {
            None
        },
    }
}

/// Reads groups of an IPv6 address from `from` on.
fn read_groups(text: &[u8], from: usize, read: usize, limit: usize) -> (stopped: (
    usize,
    usize,
    bool,
))
    requires
        from <= text.len(),
        read <= limit <= 8,
    ensures
        stopped.0 == groups_at(text@, from as int, read as nat, limit as nat).0,
        stopped.1 == groups_at(text@, from as int, read as nat, limit as nat).1,
        stopped.2 == groups_at(text@, from as int, read as nat, limit as nat).2,
        from <= stopped.0 <= text.len(),
        stopped.1 <= limit,
    decreases limit - read,
{
    if read >= limit {
        return (from, read, false);
    }
    if read > 0 && (from >= text.len() || text[from] != 0x3A) {
        return (from, read, false);
    }
    let start = if read == 0 {
        from
    } else {
        from + 1
    };
    if read + 1 < limit {
        match read_octets(text, start) {
            Some((_, end)) => { return (end, read + 2, true); },
            None => {},
        }
    }
    let end = scan_run(text, start, true);
    if 1 <= end - start && end - start <= 4 {
        read_groups(text, end, read + 1, limit)
    } else {
        (from, read, false)
    }
}

/// Reads the IPv6 address that starts at `from`.
fn read_ipv6(text: &[u8], from: usize) -> (found: Option<usize>)
    requires
        from <= text.len(),
    ensures
        match ipv6_end(text@, from as int) {
            Some(end) => found == Some(end as usize) && from <= end <= text.len(),
            None => found is None,
        },
{
    let (at, head, embedded) = read_groups(text, from, 0, 8);
    if head == 8 {
        Some(at)
    } else if embedded {
        None
    } else if text.len() - at >= 2 && text[at] == 0x3A && text[at + 1] == 0x3A {
        let (end, _, _) = read_groups(text, at + 2, 0, 7 - head);
        Some(end)
    } else {
        None
    }
}

/// Whether a text is an IPv6 socket address.
fn reads_as_ipv6_endpoint(text: &[u8]) -> (is: bool)
    ensures
        is == is_ipv6_endpoint(text@),
{
    if text.len() == 0 || text[0] != 0x5B {
        return false;
    }
    let end = match read_ipv6(text, 1) {
        None => { return false; },
        Some(end) => end,
    };
    let close = if end < text.len() && text[end] == 0x25 {
        match read_number(text, end + 1, 0xFFFF_FFFF) {
            None => { return false; },
            Some((_, close)) => close,
        }
    } else {
        end
    };
    if close >= text.len() || text[close] != 0x5D {
        return false;
    }
    read_port(text, close + 1).is_some()
}

/// Reads a text, given as bytes, as an address to connect to.
pub fn validate_bytes(text: &[u8]) -> (found: Result<SocketAddress, AddressError>)
    ensures
        match validate(text@) {
            Ok(endpoint) => found matches Ok(address) && address@ == endpoint,
            Err(e) => found == Err::<SocketAddress, AddressError>(e),
        },
{
    if let Some((ip, end)) = read_octets(text, 0) {
        if let Some(port) = read_port(text, end) {
            return Ok(SocketAddress { ip, port });
        }
    }
    let bare = match read_ipv6(text, 0) {
        Some(end) => end == text.len(),
        None => false,
    };
    if bare || reads_as_ipv6_endpoint(text) {
        Err(AddressError::UnsupportedFamily)
    } else {
        Err(AddressError::Unparseable)
    }
}

/// Reads a text as the address of a peer. An IPv4 socket address is
/// accepted; an IPv6 literal is told apart as unsupported; anything else is
/// unparseable.
pub fn parse_and_validate_address(address_str: &str) -> (found: Result<
    SocketAddress,
    AddressError,
>)
    ensures
        match validate(encode_utf8(address_str@)) {
            Ok(endpoint) => found matches Ok(address) && address@ == endpoint,
            Err(e) => found == Err::<SocketAddress, AddressError>(e),
        },
{
    validate_bytes(address_str.as_bytes())
}

/// Whom to dial, and for how long at most.
#[derive(Clone, Copy, Debug, PartialEq, Eq)]
pub struct ConnectPlan {
    pub address: SocketAddress,
    pub timeout_millis: u64,
}

/// What came of dialling.
#[derive(Clone, Debug, PartialEq, Eq)]
pub enum ConnectAttempt {
    /// The transport connection stands.
    Established,
    /// The transport refused or could not reach the peer; the text is its
    /// own account of the cause.
    Refused(String),
    /// The time allowed ran out first.
    TimedOut,
}

/// Decides whether to dial at all: an address that validates is dialled
/// within the time allowed, any other is an invalid address, and nothing is
/// dialled for it.
pub fn plan_connection(remote_address: &str) -> (planned: Result<ConnectPlan, ConnectionError>)
    ensures
        match validate(encode_utf8(remote_address@)) {
            Ok(endpoint) => {
                &&& planned matches Ok(plan)
                &&& plan.address@ == endpoint
                &&& plan.timeout_millis == TIMEOUT_MILLIS
            },
            Err(_) => planned == Err::<ConnectPlan, ConnectionError>(
                ConnectionError::InvalidAddress,
            ),
        },
{
    match parse_and_validate_address(remote_address) {
        Ok(address) => Ok(ConnectPlan { address, timeout_millis: TIMEOUT_MILLIS }),
        Err(_) => Err(ConnectionError::InvalidAddress),
    }
}

/// Decides what an attempt to connect amounts to: a connection that stands
/// is a success, a refusal is a failed connection that carries its cause,
/// and time running out is a connection that timed out.
pub fn conclude_connection(attempt: ConnectAttempt) -> (concluded: Result<(), ConnectionError>)
    ensures
        concluded == match attempt {
            ConnectAttempt::Established => Ok::<(), ConnectionError>(()),
            ConnectAttempt::Refused(cause) => Err::<(), ConnectionError>(
                ConnectionError::ConnectionFailed(cause),
            ),
            ConnectAttempt::TimedOut => Err::<(), ConnectionError>(
                ConnectionError::ConnectionTimedOut,
            ),
        },
{
    match attempt {
        ConnectAttempt::Established => Ok(()),
        ConnectAttempt::Refused(cause) => Err(ConnectionError::ConnectionFailed(cause)),
        ConnectAttempt::TimedOut => Err(ConnectionError::ConnectionTimedOut),
    }
}

} // verus!
