//! Binary encoding of unsigned integers, least significant byte first, as
//! the binary module format wants them.

use byteorder::{LittleEndian, WriteBytesExt};
use vstd::prelude::*;

verus! {

/// The `n` low bytes of `x`, the least significant first.
pub open spec fn le_bytes(x: nat, n: nat) -> Seq<u8>
    decreases n,
{
    if n == 0 {
        Seq::empty()
    } else {
        seq![(x % 256) as u8] + le_bytes(x / 256, (n - 1) as nat)
    }
}

/// `WriteBytesExt::write_u8` of byteorder on a vector: it appends the byte.
/// Writing to a vector never fails.
#[verifier::external_body]
fn write_u8(bytes: &mut Vec<u8>, x: u8)
    ensures
        final(bytes)@ == old(bytes)@ + le_bytes(x as nat, 1),
{
    bytes.write_u8(x).unwrap();
}

/// `WriteBytesExt::write_u16` of byteorder with `LittleEndian` on a vector:
/// it appends the two bytes of `x`, the low one first.
#[verifier::external_body]
fn write_u16_le(bytes: &mut Vec<u8>, x: u16)
    ensures
        final(bytes)@ == old(bytes)@ + le_bytes(x as nat, 2),
{
    bytes.write_u16::<LittleEndian>(x).unwrap();
}

/// `WriteBytesExt::write_u32` of byteorder with `LittleEndian` on a vector:
/// it appends the four bytes of `x`, the lowest first.
#[verifier::external_body]
fn write_u32_le(bytes: &mut Vec<u8>, x: u32)
    ensures
        final(bytes)@ == old(bytes)@ + le_bytes(x as nat, 4),
{
    bytes.write_u32::<LittleEndian>(x).unwrap();
}

/// Appends the byte `x`.
#[allow(non_snake_case)]
pub fn encodeUint8(x: u8, bytes: &mut Vec<u8>)
    ensures
        final(bytes)@ == old(bytes)@.push(x),
{
    write_u8(bytes, x);
    proof {
        reveal_with_fuel(le_bytes, 2);
        assert(old(bytes)@ + le_bytes(x as nat, 1) =~= old(bytes)@.push(x));
    }
}

/// Appends the two bytes of `x`, the low one first.
#[allow(non_snake_case)]
pub fn encodeUint16(x: u16, bytes: &mut Vec<u8>)
    ensures
        final(bytes)@ == old(bytes)@ + le_bytes(x as nat, 2),
        final(bytes)@.len() == old(bytes)@.len() + 2,
{
    write_u16_le(bytes, x);
    proof {
        lemma_le_bytes_len(x as nat, 2);
    }
}

/// Appends the four bytes of `x`, the lowest first.
#[allow(non_snake_case)]
pub fn encodeUint32(x: u32, bytes: &mut Vec<u8>)
    ensures
        final(bytes)@ == old(bytes)@ + le_bytes(x as nat, 4),
        final(bytes)@.len() == old(bytes)@.len() + 4,
{
    write_u32_le(bytes, x);
    proof {
        lemma_le_bytes_len(x as nat, 4);
    }
}

/// `le_bytes` yields as many bytes as it is asked for.
pub proof fn lemma_le_bytes_len(x: nat, n: nat)
    ensures
        le_bytes(x, n).len() == n,
    decreases n,
{
    if n > 0 {
        lemma_le_bytes_len(x / 256, (n - 1) as nat);
    }
}

} // verus!
