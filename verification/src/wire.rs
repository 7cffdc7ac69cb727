//! Integers as they stand in an ADS frame.
//!
//! Most of them stand in the byte order of the machine, which is low byte first
//! on the machines that TwinCAT runs on. Ports and state flags are written low
//! byte first on every machine.

use vstd::prelude::*;

verus! {

/// The machine keeps the low byte of an integer first.
pub open spec fn is_little_endian() -> bool {
    vstd::endian::endianness() == vstd::endian::Endian::Little
}

/// The number that two digits to the base 256 make, the lowest one first.
pub open spec fn number2(a: u8, b: u8) -> u16 {
    (a + 0x100 * b) as u16
}

/// The number that four digits to the base 256 make, the lowest one first.
pub open spec fn number4(a: u8, b: u8, c: u8, d: u8) -> u32 {
    (a + 0x100 * b + 0x1_0000 * c + 0x100_0000 * d) as u32
}

/// The four digits of `v` to the base 256, the lowest one first.
pub open spec fn digits4(v: u32) -> (u8, u8, u8, u8) {
    (
        (v % 0x100) as u8,
        (v / 0x100 % 0x100) as u8,
        (v / 0x1_0000 % 0x100) as u8,
        (v / 0x100_0000) as u8,
    )
}

/// The 16 bit integer at offset `at` of `s`, in the byte order of the machine.
pub open spec fn u16_at(s: Seq<u8>, at: int) -> u16 {
    if is_little_endian() {
        number2(s[at], s[at + 1])
    } else {
        number2(s[at + 1], s[at])
    }
}

/// The 32 bit integer at offset `at` of `s`, in the byte order of the machine.
pub open spec fn u32_at(s: Seq<u8>, at: int) -> u32 {
    if is_little_endian() {
        number4(s[at], s[at + 1], s[at + 2], s[at + 3])
    } else {
        number4(s[at + 3], s[at + 2], s[at + 1], s[at])
    }
}

/// The 64 bit integer at offset `at` of `s`, in the byte order of the machine.
pub open spec fn u64_at(s: Seq<u8>, at: int) -> u64 {
    if is_little_endian() {
        (u32_at(s, at) + 0x1_0000_0000 * u32_at(s, at + 4)) as u64
    } else {
        (u32_at(s, at + 4) + 0x1_0000_0000 * u32_at(s, at)) as u64
    }
}

/// The 16 bit integer at offset `at` of `s`, low byte first.
pub open spec fn u16_low_first_at(s: Seq<u8>, at: int) -> u16 {
    number2(s[at], s[at + 1])
}

/// The two bytes of `v`, low byte first.
pub open spec fn u16_low_first(v: u16) -> Seq<u8> {
    seq![(v % 0x100) as u8, (v / 0x100) as u8]
}

/// The two bytes of `v`, in the byte order of the machine.
pub open spec fn u16_bytes(v: u16) -> Seq<u8> {
    if is_little_endian() {
        u16_low_first(v)
    } else {
        seq![(v / 0x100) as u8, (v % 0x100) as u8]
    }
}

/// The four bytes of `v`, in the byte order of the machine.
pub open spec fn u32_bytes(v: u32) -> Seq<u8> {
    let (a, b, c, d) = digits4(v);
    if is_little_endian() {
        seq![a, b, c, d]
    } else {
        seq![d, c, b, a]
    }
}

/// The eight bytes of `v`, in the byte order of the machine.
pub open spec fn u64_bytes(v: u64) -> Seq<u8> {
    let low = u32_bytes((v % 0x1_0000_0000) as u32);
    let high = u32_bytes((v / 0x1_0000_0000) as u32);
    if is_little_endian() {
        low + high
    } else {
        high + low
    }
}

/// `u16::from_ne_bytes` makes an integer of its bytes in the byte order of the
/// machine.
#[verifier::external_body]
fn u16_from_ne_bytes(bytes: [u8; 2]) -> (v: u16)
    ensures
        v == u16_at(bytes@, 0),
{
    u16::from_ne_bytes(bytes)
}

/// `u32::from_ne_bytes` makes an integer of its bytes in the byte order of the
/// machine.
#[verifier::external_body]
fn u32_from_ne_bytes(bytes: [u8; 4]) -> (v: u32)
    ensures
        v == u32_at(bytes@, 0),
{
    u32::from_ne_bytes(bytes)
}

/// `u64::from_ne_bytes` makes an integer of its bytes in the byte order of the
/// machine.
#[verifier::external_body]
fn u64_from_ne_bytes(bytes: [u8; 8]) -> (v: u64)
    ensures
        v == u64_at(bytes@, 0),
{
    u64::from_ne_bytes(bytes)
}

/// `u16::to_ne_bytes` gives the bytes of an integer in the byte order of the
/// machine.
#[verifier::external_body]
pub(crate) fn u16_to_ne_bytes(v: u16) -> (bytes: [u8; 2])
    ensures
        bytes@ == u16_bytes(v),
{
    v.to_ne_bytes()
}

/// `u32::to_ne_bytes` gives the bytes of an integer in the byte order of the
/// machine.
#[verifier::external_body]
pub(crate) fn u32_to_ne_bytes(v: u32) -> (bytes: [u8; 4])
    ensures
        bytes@ == u32_bytes(v),
{
    v.to_ne_bytes()
}

/// Reads the 16 bit integer at offset `at`.
pub fn read_u16(s: &[u8], at: usize) -> (v: u16)
    requires
        at + 2 <= s.len(),
    ensures
        v == u16_at(s@, at as int),
{
    u16_from_ne_bytes([s[at], s[at + 1]])
}

/// Reads the 32 bit integer at offset `at`.
pub fn read_u32(s: &[u8], at: usize) -> (v: u32)
    requires
        at + 4 <= s.len(),
    ensures
        v == u32_at(s@, at as int),
{
    u32_from_ne_bytes([s[at], s[at + 1], s[at + 2], s[at + 3]])
}

/// Reads the 64 bit integer at offset `at`.
pub fn read_u64(s: &[u8], at: usize) -> (v: u64)
    requires
        at + 8 <= s.len(),
    ensures
        v == u64_at(s@, at as int),
{
    u64_from_ne_bytes(
        [
            s[at],
            s[at + 1],
            s[at + 2],
            s[at + 3],
            s[at + 4],
            s[at + 5],
            s[at + 6],
            s[at + 7],
        ],
    )
}

/// Writes `v` as two bytes, low byte first.
pub fn encode_low_first(v: u16) -> (bytes: [u8; 2])
    ensures
        bytes@ == u16_low_first(v),
{
    [(v % 0x100) as u8, (v / 0x100) as u8]
}

/// Four digits to the base 256 are the digits of the number that they make.
proof fn lemma_digits(a: u8, b: u8, c: u8, d: u8)
    ensures
        digits4(number4(a, b, c, d)) == (a, b, c, d),
{
    let v = number4(a, b, c, d);
    assert(v == a + 0x100 * (b + 0x100 * (c + 0x100 * d)));
    assert(v / 0x100 == b + 0x100 * (c + 0x100 * d));
    assert(v / 0x1_0000 == c + 0x100 * d);
    assert(v / 0x100_0000 == d);
}

/// A number is made of its four digits to the base 256.
proof fn lemma_sum_of_digits(v: u32)
    ensures
        number4(digits4(v).0, digits4(v).1, digits4(v).2, digits4(v).3) == v,
{
    assert(v / 0x100 / 0x100 == v / 0x1_0000);
    assert(v / 0x1_0000 / 0x100 == v / 0x100_0000);
}

/// Two 32 bit integers are the halves of the 64 bit integer that they make.
proof fn lemma_halves(low: u32, high: u32)
    ensures
        (low + 0x1_0000_0000 * high) as u64 % 0x1_0000_0000 == low,
        (low + 0x1_0000_0000 * high) as u64 / 0x1_0000_0000 == high,
{
}

/// A 16 bit integer is read back as it was written, and two bytes are written
/// back as they were read, in either order.
pub proof fn law_u16_codec(v: u16, s: Seq<u8>)
    requires
        s.len() == 2,
    ensures
        u16_at(u16_bytes(v), 0) == v,
        u16_bytes(u16_at(s, 0)) == s,
        u16_low_first_at(u16_low_first(v), 0) == v,
        u16_low_first(u16_low_first_at(s, 0)) == s,
{
    assert(u16_bytes(u16_at(s, 0)) =~= s);
    assert(u16_low_first(u16_low_first_at(s, 0)) =~= s);
}

/// A 32 bit integer is read back as it was written, and four bytes are written
/// back as they were read.
pub proof fn law_u32_codec(v: u32, s: Seq<u8>)
    requires
        s.len() == 4,
    ensures
        u32_at(u32_bytes(v), 0) == v,
        u32_bytes(u32_at(s, 0)) == s,
{
    lemma_sum_of_digits(v);
    lemma_digits(s[0], s[1], s[2], s[3]);
    lemma_digits(s[3], s[2], s[1], s[0]);
    assert(u32_bytes(u32_at(s, 0)) =~= s);
}

/// A 64 bit integer is read back as it was written, and eight bytes are written
/// back as they were read.
pub proof fn law_u64_codec(v: u64, s: Seq<u8>)
    requires
        s.len() == 8,
    ensures
        u64_at(u64_bytes(v), 0) == v,
        u64_bytes(u64_at(s, 0)) == s,
{
    assert(Seq::<u8>::empty() + u64_bytes(v) + Seq::<u8>::empty() =~= u64_bytes(v));
    lemma_u64_at(Seq::empty(), v, Seq::empty());
    let first = u32_at(s, 0);
    let second = u32_at(s, 4);
    assert(u32_bytes(first) == s.subrange(0, 4)) by {
        law_u32_codec(0, s.subrange(0, 4));
    }
    assert(u32_bytes(second) == s.subrange(4, 8)) by {
        law_u32_codec(0, s.subrange(4, 8));
    }
    lemma_halves(first, second);
    lemma_halves(second, first);
    assert(s.subrange(0, 4) + s.subrange(4, 8) =~= s);
}

/// Two bytes written anywhere in a sequence, low byte first, are read back there.
pub proof fn lemma_u16_low_first_at(before: Seq<u8>, v: u16, after: Seq<u8>)
    ensures
        u16_low_first_at(before + u16_low_first(v) + after, before.len() as int) == v,
{
}

/// Two bytes written anywhere in a sequence are read back there.
pub proof fn lemma_u16_at(before: Seq<u8>, v: u16, after: Seq<u8>)
    ensures
        u16_at(before + u16_bytes(v) + after, before.len() as int) == v,
{
}

/// Four bytes written anywhere in a sequence are read back there.
pub proof fn lemma_u32_at(before: Seq<u8>, v: u32, after: Seq<u8>)
    ensures
        u32_at(before + u32_bytes(v) + after, before.len() as int) == v,
{
    lemma_sum_of_digits(v);
}

/// Eight bytes written anywhere in a sequence are read back there.
pub proof fn lemma_u64_at(before: Seq<u8>, v: u64, after: Seq<u8>)
    ensures
        u64_at(before + u64_bytes(v) + after, before.len() as int) == v,
{
    let low = (v % 0x1_0000_0000) as u32;
    let high = (v / 0x1_0000_0000) as u32;
    let (first, second) = if is_little_endian() {
        (low, high)
    } else {
        (high, low)
    };
    let s = before + u64_bytes(v) + after;
    lemma_u32_at(before, first, u32_bytes(second) + after);
    lemma_u32_at(before + u32_bytes(first), second, after);
    assert(before + u32_bytes(first) + (u32_bytes(second) + after) =~= s);
    assert(before + u32_bytes(first) + u32_bytes(second) + after =~= s);
}

/// The value of an integer is the sum of its bytes by their weight: the first byte
/// weighs least where the machine keeps the low byte first, and most where it does
/// not. Low byte first, the first byte weighs least on every machine.
pub proof fn law_weight_of_bytes(s: Seq<u8>, at: int)
    ensures
        u16_low_first_at(s, at) == s[at] + 256 * s[at + 1],
        vstd::endian::endianness() == vstd::endian::Endian::Little ==> {
            &&& u16_at(s, at) == s[at] + 256 * s[at + 1]
            &&& u32_at(s, at) == s[at] + 256 * s[at + 1] + 65536 * s[at + 2] + 16777216 * s[at + 3]
            &&& u64_at(s, at) == u32_at(s, at) + 4294967296 * u32_at(s, at + 4)
        },
        vstd::endian::endianness() == vstd::endian::Endian::Big ==> {
            &&& u16_at(s, at) == s[at + 1] + 256 * s[at]
            &&& u32_at(s, at) == s[at + 3] + 256 * s[at + 2] + 65536 * s[at + 1] + 16777216 * s[at]
            &&& u64_at(s, at) == u32_at(s, at + 4) + 4294967296 * u32_at(s, at)
        },
{
}

/// An integer has as many bytes as its width asks for, and its bytes, by their
/// weight, add up to it.
pub proof fn law_bytes_add_up(a: u16, b: u32, c: u64)
    ensures
        u16_bytes(a).len() == 2,
        u32_bytes(b).len() == 4,
        u64_bytes(c).len() == 8,
        u16_low_first(a).len() == 2,
        u16_low_first(a)[0] + 256 * u16_low_first(a)[1] == a,
        vstd::endian::endianness() == vstd::endian::Endian::Little ==> {
            &&& u16_bytes(a)[0] + 256 * u16_bytes(a)[1] == a
            &&& u32_bytes(b)[0] + 256 * u32_bytes(b)[1] + 65536 * u32_bytes(b)[2] + 16777216
                * u32_bytes(b)[3] == b
        },
        vstd::endian::endianness() == vstd::endian::Endian::Big ==> {
            &&& u16_bytes(a)[1] + 256 * u16_bytes(a)[0] == a
            &&& u32_bytes(b)[3] + 256 * u32_bytes(b)[2] + 65536 * u32_bytes(b)[1] + 16777216
                * u32_bytes(b)[0] == b
        },
{
    lemma_sum_of_digits(b);
}

} // verus!
