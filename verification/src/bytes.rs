//! Little-endian integers in byte sequences.
use vstd::prelude::*;

verus! {

/// The 16-bit integer at `off`.
pub open spec fn u16_at(s: Seq<u8>, off: int) -> u16 {
    (s[off] + 0x100 * s[off + 1]) as u16
}

/// The 32-bit integer at `off`.
pub open spec fn u32_at(s: Seq<u8>, off: int) -> u32 {
    (s[off] + 0x100 * s[off + 1] + 0x1_0000 * s[off + 2] + 0x100_0000 * s[off + 3]) as u32
}

/// The 64-bit integer at `off`.
pub open spec fn u64_at(s: Seq<u8>, off: int) -> u64 {
    (u32_at(s, off) + 0x1_0000_0000 * u32_at(s, off + 4)) as u64
}

/// The four bytes of a 32-bit integer, least significant first.
pub open spec fn le32(x: u32) -> Seq<u8> {
    seq![
        (x % 0x100) as u8,
        (x / 0x100 % 0x100) as u8,
        (x / 0x1_0000 % 0x100) as u8,
        (x / 0x100_0000 % 0x100) as u8,
    ]
}

/// `n` zero bytes.
pub open spec fn zeros(n: nat) -> Seq<u8> {
    Seq::new(n, |i: int| 0u8)
}

/// Reads the 16-bit integer at `off`.
pub fn read_u16(data: &[u8], off: usize) -> (r: u16)
    requires
        off + 2 <= data.len(),
    ensures
        r == u16_at(data@, off as int),
{
    data[off] as u16 + 0x100 * (data[off + 1] as u16)
}

/// Reads the 32-bit integer at `off`.
pub fn read_u32(data: &[u8], off: usize) -> (r: u32)
    requires
        off + 4 <= data.len(),
    ensures
        r == u32_at(data@, off as int),
{
    data[off] as u32 + 0x100 * (data[off + 1] as u32) + 0x1_0000 * (data[off + 2] as u32)
        + 0x100_0000 * (data[off + 3] as u32)
}

/// Reads the 64-bit integer at `off`.
pub fn read_u64(data: &[u8], off: usize) -> (r: u64)
    requires
        off + 8 <= data.len(),
    ensures
        r == u64_at(data@, off as int),
{
    read_u32(data, off) as u64 + 0x1_0000_0000 * (read_u32(data, off + 4) as u64)
}

/// Appends the four bytes of `x`.
pub fn push_u32(out: &mut Vec<u8>, x: u32)
    ensures
        final(out)@ == old(out)@ + le32(x),
{
    out.push((x % 0x100) as u8);
    out.push((x / 0x100 % 0x100) as u8);
    out.push((x / 0x1_0000 % 0x100) as u8);
    out.push((x / 0x100_0000 % 0x100) as u8);
    assert(out@ =~= old(out)@ + le32(x));
}

/// Appends `n` zero bytes.
pub fn push_zeros(out: &mut Vec<u8>, n: usize)
    ensures
        final(out)@ == old(out)@ + zeros(n as nat),
{
    let mut i: usize = 0;
    while i < n
        invariant
            i <= n,
            out@ == old(out)@ + zeros(i as nat),
        decreases n - i,
    {
        out.push(0);
        i += 1;
        assert(out@ =~= old(out)@ + zeros(i as nat));
    }
}

/// Writing a 32-bit integer and reading it back gives the integer.
pub proof fn law_le32_round_trip(s: Seq<u8>, off: int, x: u32)
    requires
        0 <= off,
        off + 4 <= s.len(),
        s.subrange(off, off + 4) == le32(x),
    ensures
        u32_at(s, off) == x,
{
    let t = s.subrange(off, off + 4);
    assert(t[0] == s[off] && t[1] == s[off + 1] && t[2] == s[off + 2] && t[3] == s[off + 3]);
}

/// The least significant byte of an integer comes first: an integer is its first byte, or
/// its lower half, and so many times what comes after.
pub proof fn law_integers_are_little_endian(s: Seq<u8>, off: int)
    ensures
        u16_at(s, off) % 0x100 == s[off],
        u16_at(s, off) / 0x100 == s[off + 1],
        u32_at(s, off) % 0x1_0000 == u16_at(s, off),
        u32_at(s, off) / 0x1_0000 == u16_at(s, off + 2),
        u64_at(s, off) % 0x1_0000_0000 == u32_at(s, off),
        u64_at(s, off) / 0x1_0000_0000 == u32_at(s, off + 4),
{
}

/// An integer takes four bytes, from which it is read back, whatever is around them.
pub proof fn law_le32_is_read_back(before: Seq<u8>, x: u32, after: Seq<u8>)
    ensures
        le32(x).len() == 4,
        u32_at(before + le32(x) + after, before.len() as int) == x,
{
    let s = before + le32(x) + after;
    let off = before.len() as int;
    assert(s.subrange(off, off + 4) =~= le32(x));
    law_le32_round_trip(s, off, x);
}

/// `n` zero bytes are `n` bytes, and each is zero.
pub proof fn law_zeros(n: nat, i: int)
    requires
        0 <= i < n,
    ensures
        zeros(n).len() == n,
        zeros(n)[i] == 0,
{
}

} // verus!
