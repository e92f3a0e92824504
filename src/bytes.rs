//! Big-endian integers on byte sequences, and the 4-octet padding rule.

use vstd::arithmetic::div_mod::{lemma_fundamental_div_mod, lemma_mod_multiples_basic};
use vstd::prelude::*;

verus! {

/// The value of two octets read most significant first.
pub open spec fn be16(s: Seq<u8>) -> u16 {
    ((s[0] as u16) << 8u16) | (s[1] as u16)
}

/// The value of four octets read most significant first.
pub open spec fn be32(s: Seq<u8>) -> u32 {
    ((s[0] as u32) << 24u32) | ((s[1] as u32) << 16u32) | ((s[2] as u32) << 8u32) | (s[3] as u32)
}

/// The value of eight octets read most significant first.
pub open spec fn be64(s: Seq<u8>) -> u64 {
    ((s[0] as u64) << 56u64) | ((s[1] as u64) << 48u64) | ((s[2] as u64) << 40u64) | ((s[3] as u64)
        << 32u64) | ((s[4] as u64) << 24u64) | ((s[5] as u64) << 16u64) | ((s[6] as u64) << 8u64)
        | (s[7] as u64)
}

/// The two octets of `x`, most significant first.
pub open spec fn u16_bytes(x: u16) -> Seq<u8> {
    seq![(x >> 8u16) as u8, x as u8]
}

/// The four octets of `x`, most significant first.
pub open spec fn u32_bytes(x: u32) -> Seq<u8> {
    seq![(x >> 24u32) as u8, (x >> 16u32) as u8, (x >> 8u32) as u8, x as u8]
}

/// The eight octets of `x`, most significant first.
pub open spec fn u64_bytes(x: u64) -> Seq<u8> {
    seq![
        (x >> 56u64) as u8,
        (x >> 48u64) as u8,
        (x >> 40u64) as u8,
        (x >> 32u64) as u8,
        (x >> 24u64) as u8,
        (x >> 16u64) as u8,
        (x >> 8u64) as u8,
        x as u8,
    ]
}

/// `n` rounded up to a multiple of 4.
pub open spec fn pad4(n: int) -> int {
    if n % 4 == 0 {
        n
    } else {
        n + (4 - n % 4)
    }
}

/// `n` zero octets.
pub open spec fn zeros(n: int) -> Seq<u8> {
    Seq::new(n as nat, |i: int| 0u8)
}

/// Whether every octet of `s` is zero.
pub open spec fn all_zero(s: Seq<u8>) -> bool {
    forall|i: int| 0 <= i < s.len() ==> s[i] == 0
}

pub proof fn lemma_u16_round_trip(x: u16)
    ensures
        u16_bytes(x).len() == 2,
        be16(u16_bytes(x)) == x,
{
    let b0 = (x >> 8u16) as u8;
    let b1 = x as u8;
    assert((((b0 as u16) << 8u16) | (b1 as u16)) == x) by (bit_vector)
        requires
            b0 == (x >> 8u16) as u8,
            b1 == x as u8,
    ;
}

pub proof fn lemma_bytes_u16_round_trip(s: Seq<u8>)
    requires
        s.len() == 2,
    ensures
        u16_bytes(be16(s)) == s,
{
    let b0 = s[0];
    let b1 = s[1];
    let x = be16(s);
    assert((x >> 8u16) as u8 == b0 && x as u8 == b1) by (bit_vector)
        requires
            x == ((b0 as u16) << 8u16) | (b1 as u16),
    ;
    assert(u16_bytes(x) =~= s);
}

pub proof fn lemma_u32_round_trip(x: u32)
    ensures
        u32_bytes(x).len() == 4,
        be32(u32_bytes(x)) == x,
{
    let s = u32_bytes(x);
    let (b0, b1, b2, b3) = (s[0], s[1], s[2], s[3]);
    assert((((b0 as u32) << 24u32) | ((b1 as u32) << 16u32) | ((b2 as u32) << 8u32) | (b3 as u32))
        == x) by (bit_vector)
        requires
            b0 == (x >> 24u32) as u8,
            b1 == (x >> 16u32) as u8,
            b2 == (x >> 8u32) as u8,
            b3 == x as u8,
    ;
}

pub proof fn lemma_bytes_u32_round_trip(s: Seq<u8>)
    requires
        s.len() == 4,
    ensures
        u32_bytes(be32(s)) == s,
{
    let (b0, b1, b2, b3) = (s[0], s[1], s[2], s[3]);
    let x = be32(s);
    assert((x >> 24u32) as u8 == b0 && (x >> 16u32) as u8 == b1 && (x >> 8u32) as u8 == b2 && x as u8
        == b3) by (bit_vector)
        requires
            x == ((b0 as u32) << 24u32) | ((b1 as u32) << 16u32) | ((b2 as u32) << 8u32) | (
            b3 as u32),
    ;
    assert(u32_bytes(x) =~= s);
}

pub proof fn lemma_u64_round_trip(x: u64)
    ensures
        u64_bytes(x).len() == 8,
        be64(u64_bytes(x)) == x,
{
    let s = u64_bytes(x);
    let (b0, b1, b2, b3, b4, b5, b6, b7) = (s[0], s[1], s[2], s[3], s[4], s[5], s[6], s[7]);
    assert((((b0 as u64) << 56u64) | ((b1 as u64) << 48u64) | ((b2 as u64) << 40u64) | ((b3 as u64)
        << 32u64) | ((b4 as u64) << 24u64) | ((b5 as u64) << 16u64) | ((b6 as u64) << 8u64) | (
    b7 as u64)) == x) by (bit_vector)
        requires
            b0 == (x >> 56u64) as u8,
            b1 == (x >> 48u64) as u8,
            b2 == (x >> 40u64) as u8,
            b3 == (x >> 32u64) as u8,
            b4 == (x >> 24u64) as u8,
            b5 == (x >> 16u64) as u8,
            b6 == (x >> 8u64) as u8,
            b7 == x as u8,
    ;
}

pub proof fn lemma_bytes_u64_round_trip(s: Seq<u8>)
    requires
        s.len() == 8,
    ensures
        u64_bytes(be64(s)) == s,
{
    let (b0, b1, b2, b3, b4, b5, b6, b7) = (s[0], s[1], s[2], s[3], s[4], s[5], s[6], s[7]);
    let x = be64(s);
    assert((x >> 56u64) as u8 == b0 && (x >> 48u64) as u8 == b1 && (x >> 40u64) as u8 == b2 && (x
        >> 32u64) as u8 == b3 && (x >> 24u64) as u8 == b4 && (x >> 16u64) as u8 == b5 && (x
        >> 8u64) as u8 == b6 && x as u8 == b7) by (bit_vector)
        requires
            x == ((b0 as u64) << 56u64) | ((b1 as u64) << 48u64) | ((b2 as u64) << 40u64) | ((
            b3 as u64) << 32u64) | ((b4 as u64) << 24u64) | ((b5 as u64) << 16u64) | ((b6 as u64)
                << 8u64) | (b7 as u64),
    ;
    assert(u64_bytes(x) =~= s);
}

/// Reads two octets at `at`, most significant first.
pub fn read_u16(data: &[u8], at: usize) -> (r: u16)
    requires
        at + 2 <= data@.len(),
    ensures
        r == be16(data@.subrange(at as int, at + 2)),
{
    ((data[at] as u16) << 8u16) | (data[at + 1] as u16)
}

/// Reads four octets at `at`, most significant first.
pub fn read_u32(data: &[u8], at: usize) -> (r: u32)
    requires
        at + 4 <= data@.len(),
    ensures
        r == be32(data@.subrange(at as int, at + 4)),
{
    ((data[at] as u32) << 24u32) | ((data[at + 1] as u32) << 16u32) | ((data[at + 2] as u32)
        << 8u32) | (data[at + 3] as u32)
}

/// Reads eight octets at `at`, most significant first.
pub fn read_u64(data: &[u8], at: usize) -> (r: u64)
    requires
        at + 8 <= data@.len(),
    ensures
        r == be64(data@.subrange(at as int, at + 8)),
{
    ((data[at] as u64) << 56u64) | ((data[at + 1] as u64) << 48u64) | ((data[at + 2] as u64)
        << 40u64) | ((data[at + 3] as u64) << 32u64) | ((data[at + 4] as u64) << 24u64) | ((data[at
        + 5] as u64) << 16u64) | ((data[at + 6] as u64) << 8u64) | (data[at + 7] as u64)
}

/// Appends the octets of `b` to `w`.
pub fn put_bytes(w: &mut Vec<u8>, b: &[u8])
    ensures
        final(w)@ == old(w)@ + b@,
{
    let mut i: usize = 0;
    while i < b.len()
        invariant
            i <= b@.len(),
            w@ == old(w)@ + b@.subrange(0, i as int),
        decreases b@.len() - i,
    {
        w.push(b[i]);
        i = i + 1;
        assert(b@.subrange(0, i as int) =~= b@.subrange(0, i - 1) + seq![b@[i - 1]]);
    }
    assert(b@.subrange(0, b@.len() as int) =~= b@);
}

/// Appends `n` zero octets to `w`.
pub fn put_zeros(w: &mut Vec<u8>, n: usize)
    ensures
        final(w)@ == old(w)@ + zeros(n as int),
{
    let mut i: usize = 0;
    while i < n
        invariant
            i <= n,
            w@ == old(w)@ + zeros(i as int),
        decreases n - i,
    {
        w.push(0u8);
        i = i + 1;
        assert(zeros(i as int) =~= zeros(i - 1) + seq![0u8]);
    }
}

/// Appends the two octets of `x`, most significant first.
pub fn put_u16(w: &mut Vec<u8>, x: u16)
    ensures
        final(w)@ == old(w)@ + u16_bytes(x),
{
    w.push((x >> 8u16) as u8);
    w.push(x as u8);
    assert(w@ =~= old(w)@ + u16_bytes(x));
}

/// Appends the four octets of `x`, most significant first.
pub fn put_u32(w: &mut Vec<u8>, x: u32)
    ensures
        final(w)@ == old(w)@ + u32_bytes(x),
{
    w.push((x >> 24u32) as u8);
    w.push((x >> 16u32) as u8);
    w.push((x >> 8u32) as u8);
    w.push(x as u8);
    assert(w@ =~= old(w)@ + u32_bytes(x));
}

/// Appends the eight octets of `x`, most significant first.
pub fn put_u64(w: &mut Vec<u8>, x: u64)
    ensures
        final(w)@ == old(w)@ + u64_bytes(x),
{
    w.push((x >> 56u64) as u8);
    w.push((x >> 48u64) as u8);
    w.push((x >> 40u64) as u8);
    w.push((x >> 32u64) as u8);
    w.push((x >> 24u64) as u8);
    w.push((x >> 16u64) as u8);
    w.push((x >> 8u64) as u8);
    w.push(x as u8);
    assert(w@ =~= old(w)@ + u64_bytes(x));
}

/// Whether every octet of `data[start..end]` is zero.
pub fn is_all_zero(data: &[u8], start: usize, end: usize) -> (r: bool)
    requires
        start <= end <= data@.len(),
    ensures
        r == all_zero(data@.subrange(start as int, end as int)),
{
    let mut i: usize = start;
    while i < end
        invariant
            start <= i <= end <= data@.len(),
            all_zero(data@.subrange(start as int, i as int)),
        decreases end - i,
    {
        if data[i] != 0 {
            assert(data@.subrange(start as int, end as int)[i - start] != 0);
            return false;
        }
        i = i + 1;
        assert(all_zero(data@.subrange(start as int, i as int))) by {
            assert forall|k: int| 0 <= k < i - start implies data@.subrange(
                start as int,
                i as int,
            )[k] == 0 by {
                if k < i - 1 - start {
                    assert(data@.subrange(start as int, i - 1)[k] == 0);
                }
            }
        }
    }
    true
}

/// `lhs` rounded up to a multiple of `rhs`.
pub fn next_multiple_of(lhs: usize, rhs: usize) -> (r: usize)
    requires
        rhs > 0,
        lhs + rhs <= usize::MAX,
    ensures
        r % rhs == 0,
        lhs <= r < lhs + rhs,
        lhs % rhs == 0 ==> r == lhs,
        rhs == 4 ==> r == pad4(lhs as int),
{
    let m = lhs % rhs;
    proof {
        let q = (lhs / rhs) as int;
        lemma_fundamental_div_mod(lhs as int, rhs as int);
        lemma_mod_multiples_basic(q + 1, rhs as int);
        assert((q + 1) * rhs == q * rhs + rhs) by (nonlinear_arith);
    }
    if m == 0 {
        lhs
    } else {
        lhs + (rhs - m)
    }
}

/// `lhs / rhs` rounded up.
pub fn div_ceil(lhs: usize, rhs: usize) -> (r: usize)
    requires
        rhs > 0,
    ensures
        r == if lhs % rhs == 0 { (lhs / rhs) as int } else { lhs / rhs + 1 },
{
    let d = lhs / rhs;
    let r = lhs % rhs;
    proof {
        lemma_fundamental_div_mod(lhs as int, rhs as int);
        if rhs == 1 {
            assert(lhs as int % 1 == 0);
        } else {
            assert(d * rhs >= d * 2) by (nonlinear_arith)
                requires
                    rhs >= 2,
            ;
            assert(d * rhs == rhs * d) by (nonlinear_arith);
            assert(d < usize::MAX);
        }
    }
    if r > 0 {
        d + 1
    } else {
        d
    }
}

} // verus!
