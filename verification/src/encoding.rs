//! How integers are written on the wire: little-endian words of a fixed
//! width, two's complement for the signed ones, the port in network order,
//! and the compact size that precedes a string.

use vstd::prelude::*;

verus! {

/// The number of values that `width` bytes can tell apart.
pub open spec fn radix(width: nat) -> nat
    decreases width,
{
    if width == 0 {
        1
    } else {
        256 * radix((width - 1) as nat)
    }
}

/// `value` in `width` bytes, least significant byte first. What does not fit
/// in `width` bytes is cut off.
pub open spec fn le_bytes(value: nat, width: nat) -> Seq<u8>
    decreases width,
{
    if width == 0 {
        Seq::empty()
    } else {
        seq![(value % 256) as u8] + le_bytes(value / 256, (width - 1) as nat)
    }
}

/// The number that `bytes` spell, least significant byte first.
pub open spec fn le_value(bytes: Seq<u8>) -> nat
    decreases bytes.len(),
{
    if bytes.len() == 0 {
        0
    } else {
        bytes[0] as nat + 256 * le_value(bytes.skip(1))
    }
}

/// `le_bytes` yields exactly `width` bytes.
pub proof fn lemma_le_bytes_len(value: nat, width: nat)
    ensures
        le_bytes(value, width).len() == width,
    decreases width,
{
    if width > 0 {
        lemma_le_bytes_len(value / 256, (width - 1) as nat);
    }
}

/// A number that fits in `width` bytes is read back from them unchanged.
pub proof fn lemma_le_value_of_bytes(value: nat, width: nat)
    requires
        value < radix(width),
    ensures
        le_value(le_bytes(value, width)) == value,
    decreases width,
{
    if width > 0 {
        let rest = le_bytes(value / 256, (width - 1) as nat);
        let all = le_bytes(value, width);
        lemma_le_bytes_len(value / 256, (width - 1) as nat);
        lemma_le_value_of_bytes(value / 256, (width - 1) as nat);
        assert(all.skip(1) =~= rest);
        assert(all[0] == (value % 256) as u8);
    }
}

/// The values of `radix` at the widths in use.
pub proof fn lemma_radix_values()
    ensures
        radix(0) == 1,
        radix(1) == 0x100,
        radix(2) == 0x1_0000,
        radix(4) == 0x1_0000_0000,
        radix(8) == 0x1_0000_0000_0000_0000,
{
    reveal_with_fuel(radix, 9);
}

/// The unsigned word with the bit pattern of `value` in two's complement.
pub open spec fn unsigned32(value: i32) -> u32 {
    if value >= 0 {
        value as u32
    } else {
        (value + 0x1_0000_0000) as u32
    }
}

/// The signed word with the bit pattern of `word`.
pub open spec fn signed32(word: u32) -> i32 {
    if word < 0x8000_0000 {
        word as i32
    } else {
        (word - 0x1_0000_0000) as i32
    }
}

/// The unsigned word with the bit pattern of `value` in two's complement.
pub open spec fn unsigned64(value: i64) -> u64 {
    if value >= 0 {
        value as u64
    } else {
        (value + 0x1_0000_0000_0000_0000) as u64
    }
}

/// The signed word with the bit pattern of `word`.
pub open spec fn signed64(word: u64) -> i64 {
    if word < 0x8000_0000_0000_0000 {
        word as i64
    } else {
        (word - 0x1_0000_0000_0000_0000) as i64
    }
}

/// A port in network order: most significant byte first.
pub open spec fn be16_bytes(value: u16) -> Seq<u8> {
    seq![(value / 256) as u8, (value % 256) as u8]
}

/// The port that two bytes in network order spell.
pub open spec fn be16_value(bytes: Seq<u8>) -> u16 {
    (bytes[0] as int * 256 + bytes[1] as int) as u16
}

/// Appends `value` in `width` little-endian bytes.
pub fn put_le(out: &mut Vec<u8>, value: u64, width: usize)
    requires
        width <= 8,
    ensures
        final(out)@ == old(out)@ + le_bytes(value as nat, width as nat),
{
    let mut rest: u64 = value;
    let mut done: usize = 0;
    while done < width
        invariant
            done <= width,
            out@ + le_bytes(rest as nat, (width - done) as nat) == old(out)@ + le_bytes(
                value as nat,
                width as nat,
            ),
        decreases width - done,
    {
        let ghost before = out@;
        out.push((rest % 256) as u8);
        proof {
            let tail = le_bytes((rest / 256) as nat, (width - done - 1) as nat);
            assert(le_bytes(rest as nat, (width - done) as nat) == seq![(rest % 256) as u8] + tail);
            assert(out@ + tail =~= before + (seq![(rest % 256) as u8] + tail));
        }
        rest = rest / 256;
        done = done + 1;
    }
    assert(le_bytes(rest as nat, 0) =~= Seq::<u8>::empty());
    assert(out@ + Seq::<u8>::empty() =~= out@);
}

/// Reads the little-endian number in the `width` bytes from `at` on.
pub fn get_le(bytes: &[u8], at: usize, width: usize) -> (value: u64)
    requires
        width <= 8,
        at + width <= bytes.len(),
    ensures
        value == le_value(bytes@.subrange(at as int, at + width)),
{
    let mut value: u64 = 0;
    let mut left: usize = width;
    proof {
        lemma_radix_values();
        assert(bytes@.subrange(at + width, at + width).len() == 0);
    }
    while left > 0
        invariant
            left <= width <= 8,
            at + width <= bytes.len(),
            value == le_value(bytes@.subrange(at + left, at + width)),
            value < radix((width - left) as nat),
        decreases left,
    {
        let ghost tail = bytes@.subrange(at + left, at + width);
        left = left - 1;
        let byte = bytes[at + left];
        proof {
            let word = bytes@.subrange(at + left, at + width);
            assert(word.skip(1) =~= tail);
            assert(word[0] == byte);
            lemma_radix_bound((width - left - 1) as nat);
            assert(radix((width - left) as nat) == 256 * radix((width - left - 1) as nat));
        }
        value = byte as u64 + 256 * value;
    }
    value
}

/// With at most eight bytes the radix stays within a `u64` by a factor of 256
/// per byte that is missing.
proof fn lemma_radix_bound(width: nat)
    requires
        width < 8,
    ensures
        256 * radix(width) <= 0x1_0000_0000_0000_0000,
{
    reveal_with_fuel(radix, 9);
}

/// Reading back a signed word gives the word that was written.
pub proof fn lemma_signed32_of_unsigned32(value: i32)
    ensures
        signed32(unsigned32(value)) == value,
{
}

/// Reading back a signed word gives the word that was written.
pub proof fn lemma_signed64_of_unsigned64(value: i64)
    ensures
        signed64(unsigned64(value)) == value,
{
}

/// The bit pattern of a signed word, as an unsigned one.
pub fn to_unsigned32(value: i32) -> (word: u32)
    ensures
        word == unsigned32(value),
{
    if value >= 0 {
        value as u32
    } else {
        ((value + 0x7FFF_FFFF + 1) as u32) + 0x8000_0000
    }
}

/// The signed word with the given bit pattern.
pub fn to_signed32(word: u32) -> (value: i32)
    ensures
        value == signed32(word),
{
    if word < 0x8000_0000 {
        word as i32
    } else {
        ((word - 0x8000_0000) as i32) - 0x7FFF_FFFF - 1
    }
}

/// The bit pattern of a signed word, as an unsigned one.
pub fn to_unsigned64(value: i64) -> (word: u64)
    ensures
        word == unsigned64(value),
{
    if value >= 0 {
        value as u64
    } else {
        ((value + 0x7FFF_FFFF_FFFF_FFFF + 1) as u64) + 0x8000_0000_0000_0000
    }
}

/// The signed word with the given bit pattern.
pub fn to_signed64(word: u64) -> (value: i64)
    ensures
        value == signed64(word),
{
    if word < 0x8000_0000_0000_0000 {
        word as i64
    } else {
        ((word - 0x8000_0000_0000_0000) as i64) - 0x7FFF_FFFF_FFFF_FFFF - 1
    }
}

/// A length as the wire writes it before a string: one byte below 253, else
/// a marker byte and the length in two, four or eight little-endian bytes,
/// whichever is the shortest that holds it.
pub open spec fn compact_size(n: u64) -> Seq<u8> {
    if n < 0xFD {
        seq![n as u8]
    } else if n <= 0xFFFF {
        seq![0xFDu8] + le_bytes(n as nat, 2)
    } else if n <= 0xFFFF_FFFF {
        seq![0xFEu8] + le_bytes(n as nat, 4)
    } else {
        seq![0xFFu8] + le_bytes(n as nat, 8)
    }
}

/// The number of bytes that the marker byte of a compact size announces,
/// itself included.
pub open spec fn compact_size_width(marker: u8) -> nat {
    if marker < 0xFD {
        1
    } else if marker == 0xFD {
        3
    } else if marker == 0xFE {
        5
    } else {
        9
    }
}

/// The least length that may be written at the width which `marker`
/// announces. A shorter form exists for anything below it.
pub open spec fn compact_size_floor(marker: u8) -> nat {
    if marker < 0xFD {
        0
    } else if marker == 0xFD {
        0xFD
    } else if marker == 0xFE {
        0x1_0000
    } else {
        0x1_0000_0000
    }
}

/// The length at the front of `bytes` and the number of bytes it takes.
/// `None` where the bytes end too early, or where the length is not written
/// in its shortest form.
pub open spec fn parse_compact_size(bytes: Seq<u8>) -> Option<(u64, nat)> {
    if bytes.len() == 0 {
        None
    } else {
        let width = compact_size_width(bytes[0]);
        if bytes[0] < 0xFD {
            Some((bytes[0] as u64, width))
        } else if bytes.len() < width {
            None
        } else {
            let n = le_value(bytes.subrange(1, width as int));
            if n < compact_size_floor(bytes[0]) {
                None
            } else {
                Some((n as u64, width))
            }
        }
    }
}

/// A compact size is read back from its bytes, whatever follows them.
pub proof fn lemma_parse_compact_size(n: u64, rest: Seq<u8>)
    ensures
        parse_compact_size(compact_size(n) + rest) == Some((n, compact_size(n).len())),
{
    let bytes = compact_size(n) + rest;
    lemma_radix_values();
    if n < 0xFD {
        assert(bytes[0] == n as u8);
    } else {
        let width: nat = if n <= 0xFFFF {
            2
        } else if n <= 0xFFFF_FFFF {
            4
        } else {
            8
        };
        lemma_le_bytes_len(n as nat, width);
        lemma_le_value_of_bytes(n as nat, width);
        assert(bytes.subrange(1, 1 + width as int) =~= le_bytes(n as nat, width));
    }
}

/// Appends a length in its compact form.
pub fn put_compact_size(out: &mut Vec<u8>, n: u64)
    ensures
        final(out)@ == old(out)@ + compact_size(n),
{
    let ghost before = out@;
    if n < 0xFD {
        out.push(n as u8);
    } else if n <= 0xFFFF {
        out.push(0xFD);
        put_le(out, n, 2);
    } else if n <= 0xFFFF_FFFF {
        out.push(0xFE);
        put_le(out, n, 4);
    } else {
        out.push(0xFF);
        put_le(out, n, 8);
    }
    assert(out@ =~= before + compact_size(n));
}

/// Reads the compact size that starts at `at`: the length and the number of
/// bytes it takes.
pub fn get_compact_size(bytes: &[u8], at: usize) -> (found: Option<(u64, usize)>)
    requires
        at <= bytes.len(),
    ensures
        match parse_compact_size(bytes@.skip(at as int)) {
            Some((n, width)) => found == Some((n, width as usize)) && at + width <= bytes.len(),
            None => found is None,
        },
{
    let ghost front = bytes@.skip(at as int);
    if at == bytes.len() {
        return None;
    }
    let marker = bytes[at];
    assert(front[0] == marker);
    if marker < 0xFD {
        return Some((marker as u64, 1));
    }
    let width: usize = if marker == 0xFD {
        3
    } else if marker == 0xFE {
        5
    } else {
        9
    };
    if bytes.len() - at < width {
        return None;
    }
    let n = get_le(bytes, at + 1, width - 1);
    assert(bytes@.subrange(at + 1, at + width) =~= front.subrange(1, width as int));
    let floor: u64 = if marker == 0xFD {
        0xFD
    } else if marker == 0xFE {
        0x1_0000
    } else {
        0x1_0000_0000
    };
    if n < floor {
        None
    } else {
        Some((n, width))
    }
}

/// Appends `bytes` as they are.
pub fn put_bytes(out: &mut Vec<u8>, bytes: &[u8])
    ensures
        final(out)@ == old(out)@ + bytes@,
{
    let mut done: usize = 0;
    while done < bytes.len()
        invariant
            done <= bytes.len(),
            out@ == old(out)@ + bytes@.take(done as int),
        decreases bytes.len() - done,
    {
        out.push(bytes[done]);
        done = done + 1;
        assert(out@ =~= old(out)@ + bytes@.take(done as int));
    }
    assert(bytes@.take(done as int) =~= bytes@);
}

} // verus!
