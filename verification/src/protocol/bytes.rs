use vstd::prelude::*;

verus! {

/// The four bytes of `n` in network (big-endian) order.
pub open spec fn be32_bytes(n: nat) -> Seq<u8> {
    seq![
        (n / 0x1000000 % 0x100) as u8,
        (n / 0x10000 % 0x100) as u8,
        (n / 0x100 % 0x100) as u8,
        (n % 0x100) as u8,
    ]
}

/// The number that four bytes hold in network (big-endian) order.
pub open spec fn be32_value(b0: u8, b1: u8, b2: u8, b3: u8) -> nat {
    (b0 * 0x1000000 + b1 * 0x10000 + b2 * 0x100 + b3) as nat
}

/// The two bytes of `n` in network (big-endian) order.
pub open spec fn be16_bytes(n: nat) -> Seq<u8> {
    seq![(n / 0x100 % 0x100) as u8, (n % 0x100) as u8]
}

/// The number that two bytes hold in network (big-endian) order.
pub open spec fn be16_value(b0: u8, b1: u8) -> nat {
    (b0 * 0x100 + b1) as nat
}

/// Reading back the bytes of a 32-bit number gives the number.
pub proof fn lemma_be32_roundtrip(n: nat)
    requires
        n < 0x1_0000_0000,
    ensures
        be32_value(be32_bytes(n)[0], be32_bytes(n)[1], be32_bytes(n)[2], be32_bytes(n)[3]) == n,
{
}

/// Reading back the bytes of a 16-bit number gives the number.
pub proof fn lemma_be16_roundtrip(n: nat)
    requires
        n < 0x1_0000,
    ensures
        be16_value(be16_bytes(n)[0], be16_bytes(n)[1]) == n,
{
}

/// Writing the number that four bytes hold gives the bytes back.
pub proof fn lemma_be32_bytes_of_value(b0: u8, b1: u8, b2: u8, b3: u8)
    ensures
        be32_bytes(be32_value(b0, b1, b2, b3)) == seq![b0, b1, b2, b3],
{
    let n: int = b0 * 0x1000000 + b1 * 0x10000 + b2 * 0x100 + b3;
    assert(n / 0x1000000 == b0 && n / 0x10000 % 0x100 == b1 && n / 0x100 % 0x100 == b2
        && n % 0x100 == b3) by (nonlinear_arith)
        requires
            n == b0 * 0x1000000 + b1 * 0x10000 + b2 * 0x100 + b3,
            b0 < 0x100,
            b1 < 0x100,
            b2 < 0x100,
            b3 < 0x100,
    ;
    assert(be32_bytes(be32_value(b0, b1, b2, b3)) =~= seq![b0, b1, b2, b3]);
}

/// Writing the number that two bytes hold gives the bytes back.
pub proof fn lemma_be16_bytes_of_value(b0: u8, b1: u8)
    ensures
        be16_bytes(be16_value(b0, b1)) == seq![b0, b1],
{
}

/// The big-endian bytes of a 32-bit length.
pub fn u32_to_be(n: u32) -> (r: [u8; 4])
    ensures
        r@ == be32_bytes(n as nat),
{
    let r = [(n >> 24) as u8, ((n >> 16) & 0xff) as u8, ((n >> 8) & 0xff) as u8, (n & 0xff) as u8];
    assert((n >> 24) as u8 == (n / 0x1000000 % 0x100) as u8) by (bit_vector);
    assert(((n >> 16) & 0xff) as u8 == (n / 0x10000 % 0x100) as u8) by (bit_vector);
    assert(((n >> 8) & 0xff) as u8 == (n / 0x100 % 0x100) as u8) by (bit_vector);
    assert((n & 0xff) as u8 == (n % 0x100) as u8) by (bit_vector);
    assert(r@ =~= be32_bytes(n as nat));
    r
}

/// The 32-bit number that four big-endian bytes hold.
pub fn u32_from_be(b0: u8, b1: u8, b2: u8, b3: u8) -> (r: u32)
    ensures
        r as nat == be32_value(b0, b1, b2, b3),
{
    let r: u32 = ((b0 as u32) << 24) | ((b1 as u32) << 16) | ((b2 as u32) << 8) | (b3 as u32);
    assert(((b0 as u32) << 24) | ((b1 as u32) << 16) | ((b2 as u32) << 8) | (b3 as u32)
        == b0 * 0x1000000 + b1 * 0x10000 + b2 * 0x100 + b3) by (bit_vector);
    r
}

/// Appends `src` to `dst`.
pub fn extend_bytes(dst: &mut Vec<u8>, src: &[u8])
    ensures
        final(dst)@ == old(dst)@ + src@,
{
    dst.extend_from_slice(src);
    assert(dst@ =~= old(dst)@ + src@);
}

} // verus!
