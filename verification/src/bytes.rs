//! Big-endian 32-bit words, the only integers of the hstore wire format.

use byteorder::{BigEndian, ByteOrder};
use vstd::prelude::*;

verus! {

/// The signed value of four bytes read in big-endian (network) order.
pub open spec fn be_i32(b: Seq<u8>) -> int
    recommends
        b.len() == 4,
{
    let u = b[0] as int * 0x100_0000 + b[1] as int * 0x1_0000 + b[2] as int * 0x100 + b[3] as int;
    if u >= 0x8000_0000 {
        u - 0x1_0000_0000
    } else {
        u
    }
}

/// The four bytes that hold `n` in big-endian two's complement.
pub open spec fn be_bytes(n: int) -> Seq<u8>
    recommends
        i32::MIN <= n <= i32::MAX,
{
    let u = if n < 0 {
        n + 0x1_0000_0000
    } else {
        n
    };
    seq![
        (u / 0x100_0000) as u8,
        ((u / 0x1_0000) % 0x100) as u8,
        ((u / 0x100) % 0x100) as u8,
        (u % 0x100) as u8,
    ]
}

/// Reading back the bytes written for `n` yields `n`.
pub proof fn lemma_be_roundtrip(n: int)
    requires
        i32::MIN <= n <= i32::MAX,
    ensures
        be_bytes(n).len() == 4,
        be_i32(be_bytes(n)) == n,
{
}

/// Calls `byteorder::BigEndian::read_i32`, which reads the first four bytes
/// of `buf` as a big-endian two's complement integer and panics on a shorter
/// buffer.
#[verifier::external_body]
pub(crate) fn read_be_i32(buf: &[u8]) -> (n: i32)
    requires
        buf@.len() >= 4,
    ensures
        n == be_i32(buf@.subrange(0, 4)),
{
    BigEndian::read_i32(buf)
}

/// Calls `byteorder::BigEndian::write_i32` on a fresh four-byte buffer, which
/// stores `n` as big-endian two's complement.
#[verifier::external_body]
pub(crate) fn be_i32_word(n: i32) -> (word: [u8; 4])
    ensures
        word@ == be_bytes(n as int),
{
    let mut word = [0u8; 4];
    BigEndian::write_i32(&mut word, n);
    word
}

} // verus!
