//! Big-endian 32-bit integers, the only multi-byte numbers of the chunk format.

use vstd::prelude::*;

verus! {

/// The number that four bytes denote, most significant byte first.
pub open spec fn be32(bytes: Seq<u8>) -> u32
    recommends
        bytes.len() == 4,
{
    (bytes[0] as int * 0x100_0000 + bytes[1] as int * 0x1_0000 + bytes[2] as int * 0x100
        + bytes[3] as int) as u32
}

/// The four bytes of `n`, most significant byte first.
pub open spec fn be32_bytes(n: u32) -> Seq<u8> {
    seq![
        (n / 0x100_0000) as u8,
        ((n / 0x1_0000) % 0x100) as u8,
        ((n / 0x100) % 0x100) as u8,
        (n % 0x100) as u8,
    ]
}

/// Writing a number and reading it back gives the number.
pub proof fn lemma_be32_of_bytes(n: u32)
    ensures
        be32_bytes(n).len() == 4,
        be32(be32_bytes(n)) == n,
{
}

/// Reading four bytes and writing the number back gives the bytes.
pub proof fn lemma_bytes_of_be32(bytes: Seq<u8>)
    requires
        bytes.len() == 4,
    ensures
        be32_bytes(be32(bytes)) == bytes,
{
    let b0: int = bytes[0] as int;
    let b1: int = bytes[1] as int;
    let b2: int = bytes[2] as int;
    let b3: int = bytes[3] as int;
    let n: int = b0 * 0x100_0000 + b1 * 0x1_0000 + b2 * 0x100 + b3;
    assert(n / 0x100 == b0 * 0x1_0000 + b1 * 0x100 + b2 && n % 0x100 == b3);
    assert(n / 0x1_0000 == b0 * 0x100 + b1 && (n / 0x1_0000) % 0x100 == b1);
    assert(n / 0x100_0000 == b0);
    assert((n / 0x100) % 0x100 == b2);
    assert(be32(bytes) == n);
    assert(be32_bytes(be32(bytes)) =~= bytes);
}

/// Reads the number stored in `bytes[pos..pos + 4]`.
pub fn read_be32(bytes: &[u8], pos: usize) -> (n: u32)
    requires
        pos + 4 <= bytes@.len(),
    ensures
        n == be32(bytes@.subrange(pos as int, pos + 4)),
{
    let b0: u32 = bytes[pos] as u32;
    let b1: u32 = bytes[pos + 1] as u32;
    let b2: u32 = bytes[pos + 2] as u32;
    let b3: u32 = bytes[pos + 3] as u32;
    b0 * 0x100_0000 + b1 * 0x1_0000 + b2 * 0x100 + b3
}

/// Appends the four bytes of `n` to `out`.
pub fn write_be32(out: &mut Vec<u8>, n: u32)
    ensures
        final(out)@ == old(out)@ + be32_bytes(n),
{
    out.push((n / 0x100_0000) as u8);
    out.push(((n / 0x1_0000) % 0x100) as u8);
    out.push(((n / 0x100) % 0x100) as u8);
    out.push((n % 0x100) as u8);
    assert(out@ =~= old(out)@ + be32_bytes(n));
}

} // verus!
