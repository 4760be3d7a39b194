//! The checksum of queue messages.
use vstd::prelude::*;
use crate::bytes::{le32, zeros};
use crate::sbuffer::SBufferReader;

verus! {

/// What the byte at position `idx` adds to the 64-bit sum: the byte, rotated into
/// one of eight lanes. No bit of a byte leaves the word, so this is a shift.
pub open spec fn lane(idx: int, byte: u8) -> u64 {
    (byte as u64) << ((idx % 8) * 8) as u64
}

/// The exclusive or of all lanes.
pub open spec fn lane_sum(s: Seq<u8>) -> u64
    decreases s.len(),
{
    if s.len() == 0 {
        0
    } else {
        lane_sum(s.drop_last()) ^ lane(s.len() - 1, s.last())
    }
}

/// Folds the upper half of a 64-bit word onto the lower.
pub open spec fn fold_halves(x: u64) -> u32 {
    ((x >> 32u64) as u32) ^ (x as u32)
}

/// The checksum of a byte sequence.
pub open spec fn checksum(s: Seq<u8>) -> u32 {
    fold_halves(lane_sum(s))
}

/// Computes the checksum of everything that is left in `data`.
pub fn calculate_checksum(data: &SBufferReader) -> (r: u32)
    ensures
        r == checksum(data@),
{
    let n = data.len();
    let mut sum: u64 = 0;
    let mut i: usize = 0;
    while i < n
        invariant
            i <= n,
            n == data@.len(),
            sum == lane_sum(data@.take(i as int)),
        decreases n - i,
    {
        let shift: u64 = ((i % 8) * 8) as u64;
        let byte: u64 = data.peek(i) as u64;
        proof {
            let t = data@.take(i + 1);
            assert(t.drop_last() =~= data@.take(i as int));
        }
        sum = sum ^ (byte << shift);
        i += 1;
    }
    assert(data@.take(i as int) =~= data@);
    ((sum >> 32u64) as u32) ^ (sum as u32)
}

/// What the byte at position `idx` adds to the checksum: the byte, rotated into one of
/// four lanes.
pub open spec fn word_lane(idx: int, byte: u8) -> u32 {
    (byte as u32) << ((idx % 4) * 8) as u32
}

/// Folding takes the lanes of the sum to those of the checksum.
proof fn lemma_fold_lane(idx: int, byte: u8)
    requires
        idx >= 0,
    ensures
        fold_halves(lane(idx, byte)) == word_lane(idx, byte),
{
    let k = ((idx % 8) * 8) as u64;
    let j = ((idx % 4) * 8) as u32;
    let x = (byte as u64) << k;
    assert(idx % 8 == idx % 4 || idx % 8 == idx % 4 + 4);
    assert(k == j || k == j + 32);
    assert(((x >> 32u64) as u32) ^ (x as u32) == (byte as u32) << j) by (bit_vector)
        requires
            x == (byte as u64) << k,
            j == 0 || j == 8 || j == 16 || j == 24,
            k == j || k == j + 32,
    ;
}

/// Folding keeps the exclusive or.
proof fn lemma_fold_xor(x: u64, y: u64)
    ensures
        fold_halves(x ^ y) == fold_halves(x) ^ fold_halves(y),
{
    assert((((x ^ y) >> 32u64) as u32) ^ ((x ^ y) as u32) == (((x >> 32u64) as u32) ^ (x as u32))
        ^ (((y >> 32u64) as u32) ^ (y as u32))) by (bit_vector);
}

/// The checksum is the exclusive or of the lanes of all bytes.
proof fn lemma_checksum_step(s: Seq<u8>)
    requires
        s.len() > 0,
    ensures
        checksum(s) == checksum(s.drop_last()) ^ word_lane(s.len() - 1, s.last()),
{
    lemma_fold_xor(lane_sum(s.drop_last()), lane(s.len() - 1, s.last()));
    lemma_fold_lane(s.len() - 1, s.last());
}

/// Nothing has checksum zero.
proof fn lemma_checksum_of_nothing()
    ensures
        checksum(Seq::<u8>::empty()) == 0,
{
    assert(((0u64 >> 32u64) as u32) ^ (0u64 as u32) == 0) by (bit_vector);
}

proof fn lemma_word_lane_xor(idx: int, a: u8, b: u8)
    ensures
        word_lane(idx, a ^ b) == word_lane(idx, a) ^ word_lane(idx, b),
{
    let k = ((idx % 4) * 8) as u32;
    assert(((a ^ b) as u32) << k == ((a as u32) << k) ^ ((b as u32) << k)) by (bit_vector);
}

/// Changing one byte changes the checksum by the lane of the difference.
proof fn lemma_checksum_update(s: Seq<u8>, i: int, b: u8)
    requires
        0 <= i < s.len(),
    ensures
        checksum(s.update(i, b)) == checksum(s) ^ word_lane(i, s[i] ^ b),
    decreases s.len(),
{
    let t = s.update(i, b);
    let p = checksum(s.drop_last());
    let d = word_lane(i, s[i] ^ b);
    let last = word_lane(s.len() - 1, s.last());
    lemma_checksum_step(s);
    lemma_checksum_step(t);
    if i == s.len() - 1 {
        assert(t.drop_last() =~= s.drop_last());
        lemma_word_lane_xor(i, s[i], b);
        let x = word_lane(i, s[i]);
        let y = word_lane(i, b);
        assert(p ^ y == (p ^ x) ^ (x ^ y)) by (bit_vector);
    } else {
        assert(t.drop_last() =~= s.drop_last().update(i, b));
        lemma_checksum_update(s.drop_last(), i, b);
        assert((p ^ d) ^ last == (p ^ last) ^ d) by (bit_vector);
    }
}

/// Altering any one byte changes the checksum.
pub proof fn law_altered_byte_changes_checksum(s: Seq<u8>, i: int, b: u8)
    requires
        0 <= i < s.len(),
        b != s[i],
    ensures
        checksum(s.update(i, b)) != checksum(s),
{
    lemma_checksum_update(s, i, b);
    let a = s[i];
    let c = checksum(s);
    let k = ((i % 4) * 8) as u32;
    assert(k == 0 || k == 8 || k == 16 || k == 24);
    assert(c ^ (((a ^ b) as u32) << k) != c) by (bit_vector)
        requires
            a != b,
            k == 0 || k == 8 || k == 16 || k == 24,
    ;
}

/// Zero bytes at the end leave the checksum as it is.
pub proof fn law_zero_padding_keeps_checksum(s: Seq<u8>, n: nat)
    ensures
        checksum(s + zeros(n)) == checksum(s),
    decreases n,
{
    let t = s + zeros(n);
    if n == 0 {
        assert(t =~= s);
    } else {
        let m = (n - 1) as nat;
        law_zero_padding_keeps_checksum(s, m);
        lemma_checksum_step(t);
        assert(t.drop_last() =~= s + zeros(m));
        assert(t.last() == 0);
        let k = (((t.len() - 1) % 4) * 8) as u32;
        let p = checksum(s);
        assert(p ^ ((0u8 as u32) << k) == p) by (bit_vector);
    }
}

/// The bytes of a 32-bit word, put back into their lanes, make up the word.
proof fn lemma_lanes_of_word(x: u32, c: u32)
    ensures
        (((x ^ (((c % 0x100) as u8) as u32) << 0u32) ^ (((c / 0x100 % 0x100) as u8) as u32) << 8u32)
            ^ (((c / 0x1_0000 % 0x100) as u8) as u32) << 16u32) ^ (((c / 0x100_0000 % 0x100) as u8)
            as u32) << 24u32 == x ^ c,
{
    let w0 = ((c % 0x100) as u32) << 0u32;
    let w1 = ((c / 0x100 % 0x100) as u32) << 8u32;
    let w2 = ((c / 0x1_0000 % 0x100) as u32) << 16u32;
    let w3 = ((c / 0x100_0000 % 0x100) as u32) << 24u32;
    assert((((x ^ w0) ^ w1) ^ w2) ^ w3 == x ^ c) by (bit_vector)
        requires
            w0 == ((c % 0x100) as u32) << 0u32,
            w1 == ((c / 0x100 % 0x100) as u32) << 8u32,
            w2 == ((c / 0x1_0000 % 0x100) as u32) << 16u32,
            w3 == ((c / 0x100_0000 % 0x100) as u32) << 24u32,
    ;
}

/// Replacing a zero byte adds the lane of the new byte.
proof fn lemma_fill_zero_byte(s: Seq<u8>, i: int, b: u8)
    requires
        0 <= i < s.len(),
        s[i] == 0,
    ensures
        checksum(s.update(i, b)) == checksum(s) ^ word_lane(i, b),
{
    lemma_checksum_update(s, i, b);
    assert(0u8 ^ b == b) by (bit_vector);
}

/// The lane of a byte that is `k` bytes after a four-byte boundary.
proof fn lemma_lane_after_boundary(at: int, k: int, b: u8)
    requires
        at % 4 == 0,
        0 <= k < 4,
    ensures
        word_lane(at + k, b) == (b as u32) << (8 * k) as u32,
{
    assert((at + k) % 4 == k);
}

/// `s` with the four bytes of `c` at `at`.
spec fn with_word(s: Seq<u8>, at: int, c: u32) -> Seq<u8> {
    s.update(at, le32(c)[0]).update(at + 1, le32(c)[1]).update(at + 2, le32(c)[2]).update(
        at + 3,
        le32(c)[3],
    )
}

/// Replacing four zero bytes on a four-byte boundary adds the word that they make up.
proof fn lemma_fill_zero_word(s: Seq<u8>, at: int, c: u32)
    requires
        0 <= at,
        at % 4 == 0,
        at + 4 <= s.len(),
        s[at] == 0,
        s[at + 1] == 0,
        s[at + 2] == 0,
        s[at + 3] == 0,
    ensures
        checksum(with_word(s, at, c)) == checksum(s) ^ c,
{
    let f = le32(c);
    let s1 = s.update(at, f[0]);
    let s2 = s1.update(at + 1, f[1]);
    let s3 = s2.update(at + 2, f[2]);
    lemma_fill_zero_byte(s, at, f[0]);
    lemma_fill_zero_byte(s1, at + 1, f[1]);
    lemma_fill_zero_byte(s2, at + 2, f[2]);
    lemma_fill_zero_byte(s3, at + 3, f[3]);
    lemma_lane_after_boundary(at, 0, f[0]);
    lemma_lane_after_boundary(at, 1, f[1]);
    lemma_lane_after_boundary(at, 2, f[2]);
    lemma_lane_after_boundary(at, 3, f[3]);
    lemma_lanes_of_word(checksum(s), c);
}

/// A message whose checksum field, four zero bytes on a four-byte boundary, is
/// overwritten with the checksum of the message has checksum zero.
pub proof fn law_sealing_zeroes_checksum(s: Seq<u8>, sealed: Seq<u8>, at: int)
    requires
        0 <= at,
        at % 4 == 0,
        at + 4 <= s.len(),
        s[at] == 0,
        s[at + 1] == 0,
        s[at + 2] == 0,
        s[at + 3] == 0,
        sealed.len() == s.len(),
        sealed.subrange(at, at + 4) == le32(checksum(s)),
        forall|i: int| 0 <= i < s.len() && !(at <= i < at + 4) ==> sealed[i] == s[i],
    ensures
        checksum(sealed) == 0,
{
    let c = checksum(s);
    let filled = with_word(s, at, c);
    assert(filled =~= sealed) by {
        let field = sealed.subrange(at, at + 4);
        assert(field[0] == sealed[at] && field[1] == sealed[at + 1]);
        assert(field[2] == sealed[at + 2] && field[3] == sealed[at + 3]);
    }
    lemma_fill_zero_word(s, at, c);
    assert(c ^ c == 0) by (bit_vector);
}

/// The lane of a byte depends on its place in its word alone.
proof fn lemma_word_lane_shift(n: int, i: int, b: u8)
    requires
        n % 4 == 0,
    ensures
        word_lane(n + i, b) == word_lane(i, b),
{
    assert((n + i) % 4 == i % 4);
}

/// The checksum of a part, split in front of its last byte.
proof fn lemma_checksum_of_parts_step(a: Seq<u8>, b: Seq<u8>)
    requires
        a.len() % 4 == 0,
        b.len() > 0,
    ensures
        checksum(a + b) == checksum(a + b.drop_last()) ^ word_lane(b.len() - 1, b.last()),
{
    let t = a + b;
    lemma_checksum_step(t);
    assert(t.drop_last() =~= a + b.drop_last());
    assert(t.last() == b.last());
    lemma_word_lane_shift(a.len() as int, b.len() - 1, b.last());
}

/// The checksums of parts add up where each part starts on a four-byte boundary. So the
/// checksum of several messages, one after the other in a ring, is zero if that of each
/// one is.
pub proof fn law_checksums_of_aligned_parts_add_up(a: Seq<u8>, b: Seq<u8>)
    requires
        a.len() % 4 == 0,
    ensures
        checksum(a + b) == checksum(a) ^ checksum(b),
    decreases b.len(),
{
    let x = checksum(a);
    if b.len() == 0 {
        assert(a + b =~= a);
        assert(b =~= Seq::<u8>::empty());
        lemma_checksum_of_nothing();
        assert(x ^ 0 == x) by (bit_vector);
    } else {
        law_checksums_of_aligned_parts_add_up(a, b.drop_last());
        lemma_checksum_of_parts_step(a, b);
        lemma_checksum_step(b);
        let z = checksum(b.drop_last());
        let last = word_lane(b.len() - 1, b.last());
        assert((x ^ z) ^ last == x ^ (z ^ last)) by (bit_vector);
    }
}

/// The checksum of a word is the word. With that of the parts it makes out the checksum of
/// anything: the exclusive or of its words, the last one filled up with zeros.
pub proof fn law_checksum_of_word(x: u32)
    ensures
        checksum(Seq::empty()) == 0,
        checksum(le32(x)) == x,
{
    lemma_checksum_of_nothing();
    let z = zeros(4);
    law_zero_padding_keeps_checksum(Seq::empty(), 4);
    assert(Seq::<u8>::empty() + z =~= z);
    lemma_fill_zero_word(z, 0, x);
    assert(with_word(z, 0, x) =~= le32(x));
    assert(0u32 ^ x == x) by (bit_vector);
}

} // verus!
