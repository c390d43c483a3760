use vstd::prelude::*;
use byteorder::{ByteOrder, LittleEndian};

verus! {

/// The four little-endian bytes of `n`.
pub open spec fn le32(n: u32) -> Seq<u8> {
    seq![
        (n & 0xff) as u8,
        ((n >> 8u32) & 0xff) as u8,
        ((n >> 16u32) & 0xff) as u8,
        ((n >> 24u32) & 0xff) as u8,
    ]
}

/// The two little-endian bytes of `n`.
pub open spec fn le16(n: u16) -> Seq<u8> {
    seq![(n & 0xff) as u8, ((n >> 8u16) & 0xff) as u8]
}

/// The `u32` stored little-endian at offset `i` of `s`.
pub open spec fn read_le32(s: Seq<u8>, i: int) -> u32 {
    (s[i] as u32) | ((s[i + 1] as u32) << 8u32) | ((s[i + 2] as u32) << 16u32) | ((s[i + 3] as u32)
        << 24u32)
}

/// The `u16` stored little-endian at offset `i` of `s`.
pub open spec fn read_le16(s: Seq<u8>, i: int) -> u16 {
    (s[i] as u16) | ((s[i + 1] as u16) << 8u16)
}

/// `n` zero bytes.
pub open spec fn zeros(n: nat) -> Seq<u8> {
    Seq::new(n, |i: int| 0u8)
}

pub proof fn lemma_read_le32(n: u32)
    ensures
        read_le32(le32(n), 0) == n,
{
    let b0 = (n & 0xff) as u8;
    let b1 = ((n >> 8u32) & 0xff) as u8;
    let b2 = ((n >> 16u32) & 0xff) as u8;
    let b3 = ((n >> 24u32) & 0xff) as u8;
    assert((b0 as u32) | ((b1 as u32) << 8u32) | ((b2 as u32) << 16u32) | ((b3 as u32) << 24u32)
        == n) by (bit_vector)
        requires
            b0 == (n & 0xff) as u8,
            b1 == ((n >> 8u32) & 0xff) as u8,
            b2 == ((n >> 16u32) & 0xff) as u8,
            b3 == ((n >> 24u32) & 0xff) as u8,
    ;
}

pub proof fn lemma_read_le16(n: u16)
    ensures
        read_le16(le16(n), 0) == n,
{
    let b0 = (n & 0xff) as u8;
    let b1 = ((n >> 8u16) & 0xff) as u8;
    assert((b0 as u16) | ((b1 as u16) << 8u16) == n) by (bit_vector)
        requires
            b0 == (n & 0xff) as u8,
            b1 == ((n >> 8u16) & 0xff) as u8,
    ;
}

pub proof fn lemma_le32_zero()
    ensures
        le32(0) == zeros(4),
{
    let z: u32 = 0;
    assert((z & 0xff) as u8 == 0 && ((z >> 8u32) & 0xff) as u8 == 0 && ((z >> 16u32) & 0xff) as u8
        == 0 && ((z >> 24u32) & 0xff) as u8 == 0) by (bit_vector)
        requires
            z == 0,
    ;
    assert(le32(0) =~= zeros(4));
}

/// Relies on byteorder's `LittleEndian::write_u32`: it stores `n` into the
/// first four bytes of the buffer, least significant byte first.
#[verifier::external_body]
fn le_bytes_u32(n: u32) -> (r: [u8; 4])
    ensures
        r@ == le32(n),
{
    let mut buf = [0u8; 4];
    LittleEndian::write_u32(&mut buf, n);
    buf
}

/// Relies on byteorder's `LittleEndian::write_u16`: it stores `n` into the
/// first two bytes of the buffer, least significant byte first.
#[verifier::external_body]
fn le_bytes_u16(n: u16) -> (r: [u8; 2])
    ensures
        r@ == le16(n),
{
    let mut buf = [0u8; 2];
    LittleEndian::write_u16(&mut buf, n);
    buf
}

/// Appends `n` to `out` as four little-endian bytes.
pub fn push_u32_le(out: &mut Vec<u8>, n: u32)
    ensures
        final(out)@ == old(out)@ + le32(n),
{
    let b = le_bytes_u32(n);
    out.push(b[0]);
    out.push(b[1]);
    out.push(b[2]);
    out.push(b[3]);
    assert(final(out)@ =~= old(out)@ + le32(n));
}

/// Appends `n` to `out` as two little-endian bytes.
pub fn push_u16_le(out: &mut Vec<u8>, n: u16)
    ensures
        final(out)@ == old(out)@ + le16(n),
{
    let b = le_bytes_u16(n);
    out.push(b[0]);
    out.push(b[1]);
}

/// Overwrites the four bytes at offset `at` of `out` with `n`, little-endian.
pub fn set_u32_le(out: &mut Vec<u8>, at: usize, n: u32)
    requires
        at + 4 <= old(out)@.len(),
    ensures
        final(out)@ == old(out)@.subrange(0, at as int) + le32(n) + old(out)@.subrange(
            at + 4,
            old(out)@.len() as int,
        ),
{
    let len = out.len();
    assert(at + 3 < len);
    let b = le_bytes_u32(n);
    out.set(at, b[0]);
    out.set(at + 1, b[1]);
    out.set(at + 2, b[2]);
    out.set(at + 3, b[3]);
    assert(final(out)@ =~= old(out)@.subrange(0, at as int) + le32(n) + old(out)@.subrange(
        at + 4,
        old(out)@.len() as int,
    ));
}

} // verus!
