//! Little-endian integers in byte sequences.
use byteorder::ByteOrder;
use vstd::prelude::*;

verus! {

/// The number that two bytes stand for, least significant first.
pub open spec fn le16(b: Seq<u8>) -> nat {
    b[0] as nat + 256 * (b[1] as nat)
}

/// The number that four bytes stand for, least significant first.
pub open spec fn le32(b: Seq<u8>) -> nat {
    le16(b) + 65536 * le16(b.skip(2))
}

/// The number that eight bytes stand for, least significant first.
pub open spec fn le64(b: Seq<u8>) -> nat {
    le32(b) + 0x1_0000_0000 * le32(b.skip(4))
}

/// `byteorder::LittleEndian::read_u16` gives the number that the first two bytes stand for.
#[verifier::external_body]
pub(crate) fn read_u16_le(b: &[u8]) -> (r: u16)
    requires
        b@.len() >= 2,
    ensures
        r as nat == le16(b@),
{
    byteorder::LittleEndian::read_u16(b)
}

/// `byteorder::LittleEndian::read_u32` gives the number that the first four bytes stand for.
#[verifier::external_body]
pub(crate) fn read_u32_le(b: &[u8]) -> (r: u32)
    requires
        b@.len() >= 4,
    ensures
        r as nat == le32(b@),
{
    byteorder::LittleEndian::read_u32(b)
}

/// `byteorder::LittleEndian::read_u64` gives the number that the first eight bytes stand for.
#[verifier::external_body]
pub(crate) fn read_u64_le(b: &[u8]) -> (r: u64)
    requires
        b@.len() >= 8,
    ensures
        r as nat == le64(b@),
{
    byteorder::LittleEndian::read_u64(b)
}

/// `byteorder::LittleEndian::write_u16` writes the two bytes that stand for the number.
#[verifier::external_body]
pub(crate) fn u16_le_bytes(v: u16) -> (r: Vec<u8>)
    ensures
        r@.len() == 2,
        le16(r@) == v as nat,
{
    let mut b = [0u8; 2];
    byteorder::LittleEndian::write_u16(&mut b, v);
    b.to_vec()
}

/// `byteorder::LittleEndian::write_u32` writes the four bytes that stand for the number.
#[verifier::external_body]
pub(crate) fn u32_le_bytes(v: u32) -> (r: Vec<u8>)
    ensures
        r@.len() == 4,
        le32(r@) == v as nat,
{
    let mut b = [0u8; 4];
    byteorder::LittleEndian::write_u32(&mut b, v);
    b.to_vec()
}

/// `byteorder::LittleEndian::write_i16` writes the two bytes that stand for the number; a negative
/// one is written as itself plus 65536.
#[verifier::external_body]
pub(crate) fn i16_le_bytes(v: i16) -> (r: Vec<u8>)
    ensures
        r@.len() == 2,
        le16(r@) == (if v < 0 {
            v + 65536
        } else {
            v as int
        }),
{
    let mut b = [0u8; 2];
    byteorder::LittleEndian::write_i16(&mut b, v);
    b.to_vec()
}

/// The two bytes that stand for a number.
pub open spec fn bytes16(v: nat) -> Seq<u8> {
    seq![(v % 256) as u8, (v / 256 % 256) as u8]
}

/// The four bytes that stand for a number.
pub open spec fn bytes32(v: nat) -> Seq<u8> {
    seq![
        (v % 256) as u8,
        (v / 256 % 256) as u8,
        (v / 65536 % 256) as u8,
        (v / 16777216 % 256) as u8,
    ]
}

/// Two bytes are told by the number they stand for.
pub proof fn two_bytes_are_told_by_number(b: Seq<u8>)
    requires
        b.len() == 2,
    ensures
        b == bytes16(le16(b)),
        le16(b) < 65536,
{
    assert(b =~= bytes16(le16(b)));
}

/// Four bytes are told by the number they stand for.
pub proof fn four_bytes_are_told_by_number(b: Seq<u8>)
    requires
        b.len() == 4,
    ensures
        b == bytes32(le32(b)),
        le32(b) < 0x1_0000_0000,
{
    let n = le32(b);
    let (b0, b1, b2, b3) = (b[0] as int, b[1] as int, b[2] as int, b[3] as int);
    assert(b.skip(2)[0] == b[2] && b.skip(2)[1] == b[3]);
    assert(n == b0 + 256 * b1 + 65536 * b2 + 16777216 * b3);
    assert(n / 256 == b1 + 256 * b2 + 65536 * b3);
    assert(n / 65536 == b2 + 256 * b3);
    assert(n / 16777216 == b3);
    assert(b =~= bytes32(n));
}

} // verus!
