//! Big-endian byte layouts of the unsigned integers that the wire format carries.
use vstd::prelude::*;

verus! {

/// The two bytes of `n`, most significant first.
pub open spec fn be16(n: u16) -> Seq<u8> {
    seq![(n / 0x100) as u8, (n % 0x100) as u8]
}

/// The four bytes of `n`, most significant first.
pub open spec fn be32(n: u32) -> Seq<u8> {
    be16((n / 0x1_0000) as u16) + be16((n % 0x1_0000) as u16)
}

/// The eight bytes of `n`, most significant first.
pub open spec fn be64(n: u64) -> Seq<u8> {
    be32((n / 0x1_0000_0000) as u32) + be32((n % 0x1_0000_0000) as u32)
}

/// The `u16` whose big-endian bytes start `b`.
pub open spec fn from_be16(b: Seq<u8>) -> u16 {
    (b[0] as int * 0x100 + b[1] as int) as u16
}

/// The `u32` whose big-endian bytes start `b`.
pub open spec fn from_be32(b: Seq<u8>) -> u32 {
    (from_be16(b) as int * 0x1_0000 + from_be16(b.skip(2)) as int) as u32
}

/// The `u64` whose big-endian bytes start `b`.
pub open spec fn from_be64(b: Seq<u8>) -> u64 {
    (from_be32(b) as int * 0x1_0000_0000 + from_be32(b.skip(4)) as int) as u64
}

/// Reading a `u16` back from its bytes gives it back, whatever follows them.
pub proof fn lemma_be16_roundtrip(n: u16, rest: Seq<u8>)
    ensures
        be16(n).len() == 2,
        from_be16(be16(n) + rest) == n,
{
    let b = be16(n) + rest;
    assert(b[0] == (n / 0x100) as u8);
    assert(b[1] == (n % 0x100) as u8);
}

/// Reading a `u32` back from its bytes gives it back, whatever follows them.
pub proof fn lemma_be32_roundtrip(n: u32, rest: Seq<u8>)
    ensures
        be32(n).len() == 4,
        from_be32(be32(n) + rest) == n,
{
    let hi = (n / 0x1_0000) as u16;
    let lo = (n % 0x1_0000) as u16;
    let b = be32(n) + rest;
    lemma_be16_roundtrip(hi, be16(lo) + rest);
    assert(b =~= be16(hi) + (be16(lo) + rest));
    lemma_be16_roundtrip(lo, rest);
    assert(b.skip(2) =~= be16(lo) + rest);
}

/// Reading a `u64` back from its bytes gives it back, whatever follows them.
pub proof fn lemma_be64_roundtrip(n: u64, rest: Seq<u8>)
    ensures
        be64(n).len() == 8,
        from_be64(be64(n) + rest) == n,
{
    let hi = (n / 0x1_0000_0000) as u32;
    let lo = (n % 0x1_0000_0000) as u32;
    let b = be64(n) + rest;
    lemma_be32_roundtrip(hi, be32(lo) + rest);
    assert(b =~= be32(hi) + (be32(lo) + rest));
    lemma_be32_roundtrip(lo, rest);
    assert(b.skip(4) =~= be32(lo) + rest);
}

/// The value that `from_be16`, `from_be32` and `from_be64` read is the
/// big-endian number of the first 2, 4 or 8 bytes: most significant byte first.
pub proof fn lemma_from_be_values(b: Seq<u8>)
    ensures
        b.len() >= 2 ==> from_be16(b) == b[0] * 0x100 + b[1],
        b.len() >= 4 ==> from_be32(b) == b[0] * 0x100_0000 + b[1] * 0x1_0000 + b[2] * 0x100 + b[3],
        b.len() >= 8 ==> from_be64(b) == b[0] * 0x100_0000_0000_0000 + b[1] * 0x1_0000_0000_0000
            + b[2] * 0x100_0000_0000 + b[3] * 0x1_0000_0000 + b[4] * 0x100_0000 + b[5] * 0x1_0000
            + b[6] * 0x100 + b[7],
{
    if b.len() >= 4 {
        assert(b.skip(2)[0] == b[2] && b.skip(2)[1] == b[3]);
    }
    if b.len() >= 8 {
        let c = b.skip(4);
        assert(c[0] == b[4] && c[1] == b[5]);
        assert(c.skip(2)[0] == b[6] && c.skip(2)[1] == b[7]);
    }
}

/// The bytes that `be16` writes are the big-endian digits of the number in
/// base 256: most significant byte first.
pub proof fn lemma_be16_bytes(a: u16)
    ensures
        be16(a) =~= seq![(a / 0x100) as u8, (a % 0x100) as u8],
{
}

/// The bytes that `be32` writes are the big-endian digits of the number in
/// base 256: most significant byte first.
pub proof fn lemma_be32_bytes(b: u32)
    ensures
        be32(b) =~= seq![
            (b / 0x100_0000) as u8,
            (b / 0x1_0000 % 0x100) as u8,
            (b / 0x100 % 0x100) as u8,
            (b % 0x100) as u8,
        ],
{
    assert((b / 0x1_0000) / 0x100 == b / 0x100_0000) by (bit_vector);
    assert((b / 0x1_0000) % 0x100 == b / 0x1_0000 % 0x100) by (bit_vector);
    assert((b % 0x1_0000) / 0x100 == b / 0x100 % 0x100) by (bit_vector);
    assert((b % 0x1_0000) % 0x100 == b % 0x100) by (bit_vector);
}

/// The bytes that `be64` writes are the big-endian digits of the number in
/// base 256: most significant byte first.
pub proof fn lemma_be64_bytes(c: u64)
    ensures
        be64(c) =~= seq![
            (c / 0x100_0000_0000_0000) as u8,
            (c / 0x1_0000_0000_0000 % 0x100) as u8,
            (c / 0x100_0000_0000 % 0x100) as u8,
            (c / 0x1_0000_0000 % 0x100) as u8,
            (c / 0x100_0000 % 0x100) as u8,
            (c / 0x1_0000 % 0x100) as u8,
            (c / 0x100 % 0x100) as u8,
            (c % 0x100) as u8,
        ],
{
    let hi = (c / 0x1_0000_0000) as u32;
    let lo = (c % 0x1_0000_0000) as u32;
    lemma_be32_bytes(hi);
    lemma_be32_bytes(lo);
    assert(c / 0x1_0000_0000 / 0x100_0000 == c / 0x100_0000_0000_0000) by (bit_vector);
    assert(c / 0x1_0000_0000 / 0x1_0000 % 0x100 == c / 0x1_0000_0000_0000 % 0x100) by (bit_vector);
    assert(c / 0x1_0000_0000 / 0x100 % 0x100 == c / 0x100_0000_0000 % 0x100) by (bit_vector);
    assert(c / 0x1_0000_0000 % 0x100 == c / 0x1_0000_0000 % 0x100) by (bit_vector);
    assert(c % 0x1_0000_0000 / 0x100_0000 == c / 0x100_0000 % 0x100) by (bit_vector);
    assert(c % 0x1_0000_0000 / 0x1_0000 % 0x100 == c / 0x1_0000 % 0x100) by (bit_vector);
    assert(c % 0x1_0000_0000 / 0x100 % 0x100 == c / 0x100 % 0x100) by (bit_vector);
    assert(c % 0x1_0000_0000 % 0x100 == c % 0x100) by (bit_vector);
}

} // verus!
