//! Little- and big-endian byte encodings of the integer widths the wire
//! dialects use, with executable readers and writers proved against the
//! specification functions.
use vstd::prelude::*;

verus! {

/// Little-endian value of two bytes.
pub open spec fn le16_of(s: Seq<u8>) -> u16
    recommends
        s.len() == 2,
{
    (s[0] as int + s[1] as int * 0x100) as u16
}

/// Big-endian value of two bytes.
pub open spec fn be16_of(s: Seq<u8>) -> u16
    recommends
        s.len() == 2,
{
    (s[0] as int * 0x100 + s[1] as int) as u16
}

/// Little-endian value of four bytes.
pub open spec fn le32_of(s: Seq<u8>) -> u32
    recommends
        s.len() == 4,
{
    (s[0] as int + s[1] as int * 0x100 + s[2] as int * 0x10000 + s[3] as int * 0x1000000) as u32
}

/// Big-endian value of four bytes.
pub open spec fn be32_of(s: Seq<u8>) -> u32
    recommends
        s.len() == 4,
{
    (s[0] as int * 0x1000000 + s[1] as int * 0x10000 + s[2] as int * 0x100 + s[3] as int) as u32
}

/// Little-endian value of eight bytes.
pub open spec fn le64_of(s: Seq<u8>) -> u64
    recommends
        s.len() == 8,
{
    (s[0] as int + s[1] as int * 0x100 + s[2] as int * 0x10000 + s[3] as int * 0x1000000
        + s[4] as int * 0x100000000 + s[5] as int * 0x10000000000 + s[6] as int * 0x1000000000000
        + s[7] as int * 0x100000000000000) as u64
}

/// The two little-endian bytes of a `u16`.
pub open spec fn le16_bytes(x: u16) -> Seq<u8> {
    seq![(x as int % 0x100) as u8, (x as int / 0x100 % 0x100) as u8]
}

/// The two big-endian bytes of a `u16`.
pub open spec fn be16_bytes(x: u16) -> Seq<u8> {
    seq![(x as int / 0x100 % 0x100) as u8, (x as int % 0x100) as u8]
}

/// The four little-endian bytes of a `u32`.
pub open spec fn le32_bytes(x: u32) -> Seq<u8> {
    seq![
        (x as int % 0x100) as u8,
        (x as int / 0x100 % 0x100) as u8,
        (x as int / 0x10000 % 0x100) as u8,
        (x as int / 0x1000000 % 0x100) as u8,
    ]
}

/// The four big-endian bytes of a `u32`.
pub open spec fn be32_bytes(x: u32) -> Seq<u8> {
    seq![
        (x as int / 0x1000000 % 0x100) as u8,
        (x as int / 0x10000 % 0x100) as u8,
        (x as int / 0x100 % 0x100) as u8,
        (x as int % 0x100) as u8,
    ]
}

/// The eight little-endian bytes of a `u64`.
pub open spec fn le64_bytes(x: u64) -> Seq<u8> {
    seq![
        (x as int % 0x100) as u8,
        (x as int / 0x100 % 0x100) as u8,
        (x as int / 0x10000 % 0x100) as u8,
        (x as int / 0x1000000 % 0x100) as u8,
        (x as int / 0x100000000 % 0x100) as u8,
        (x as int / 0x10000000000 % 0x100) as u8,
        (x as int / 0x1000000000000 % 0x100) as u8,
        (x as int / 0x100000000000000 % 0x100) as u8,
    ]
}

/// Reads a `u16` stored little-endian in `data` at `off`.
pub fn read_le16(data: &[u8], off: usize) -> (r: u16)
    requires
        off + 2 <= data@.len(),
    ensures
        r == le16_of(data@.subrange(off as int, off as int + 2)),
{
    let b0 = data[off];
    let b1 = data[off + 1];
    proof {
        let s = data@.subrange(off as int, off as int + 2);
        assert(s[0] == b0 && s[1] == b1);
    }
    b0 as u16 + b1 as u16 * 0x100
}

/// Reads a `u16` stored big-endian in `data` at `off`.
pub fn read_be16(data: &[u8], off: usize) -> (r: u16)
    requires
        off + 2 <= data@.len(),
    ensures
        r == be16_of(data@.subrange(off as int, off as int + 2)),
{
    let b0 = data[off];
    let b1 = data[off + 1];
    proof {
        let s = data@.subrange(off as int, off as int + 2);
        assert(s[0] == b0 && s[1] == b1);
    }
    b0 as u16 * 0x100 + b1 as u16
}

/// Reads a `u32` stored little-endian in `data` at `off`.
pub fn read_le32(data: &[u8], off: usize) -> (r: u32)
    requires
        off + 4 <= data@.len(),
    ensures
        r == le32_of(data@.subrange(off as int, off as int + 4)),
{
    let b0 = data[off];
    let b1 = data[off + 1];
    let b2 = data[off + 2];
    let b3 = data[off + 3];
    proof {
        let s = data@.subrange(off as int, off as int + 4);
        assert(s[0] == b0 && s[1] == b1 && s[2] == b2 && s[3] == b3);
    }
    b0 as u32 + b1 as u32 * 0x100 + b2 as u32 * 0x10000 + b3 as u32 * 0x1000000
}

/// Reads a `u32` stored big-endian in `data` at `off`.
pub fn read_be32(data: &[u8], off: usize) -> (r: u32)
    requires
        off + 4 <= data@.len(),
    ensures
        r == be32_of(data@.subrange(off as int, off as int + 4)),
{
    let b0 = data[off];
    let b1 = data[off + 1];
    let b2 = data[off + 2];
    let b3 = data[off + 3];
    proof {
        let s = data@.subrange(off as int, off as int + 4);
        assert(s[0] == b0 && s[1] == b1 && s[2] == b2 && s[3] == b3);
    }
    b0 as u32 * 0x1000000 + b1 as u32 * 0x10000 + b2 as u32 * 0x100 + b3 as u32
}

/// Reads a `u64` stored little-endian in `data` at `off`.
pub fn read_le64(data: &[u8], off: usize) -> (r: u64)
    requires
        off + 8 <= data@.len(),
    ensures
        r == le64_of(data@.subrange(off as int, off as int + 8)),
{
    let b0 = data[off];
    let b1 = data[off + 1];
    let b2 = data[off + 2];
    let b3 = data[off + 3];
    let b4 = data[off + 4];
    let b5 = data[off + 5];
    let b6 = data[off + 6];
    let b7 = data[off + 7];
    proof {
        let s = data@.subrange(off as int, off as int + 8);
        assert(s[0] == b0 && s[1] == b1 && s[2] == b2 && s[3] == b3);
        assert(s[4] == b4 && s[5] == b5 && s[6] == b6 && s[7] == b7);
    }
    b0 as u64 + b1 as u64 * 0x100 + b2 as u64 * 0x10000 + b3 as u64 * 0x1000000 + b4 as u64
        * 0x100000000 + b5 as u64 * 0x10000000000 + b6 as u64 * 0x1000000000000 + b7 as u64
        * 0x100000000000000
}

/// Appends the two little-endian bytes of `x` to `out`.
pub fn push_le16(out: &mut Vec<u8>, x: u16)
    ensures
        final(out)@ == old(out)@ + le16_bytes(x),
{
    out.push((x % 0x100) as u8);
    out.push((x / 0x100) as u8);
    assert(final(out)@ =~= old(out)@ + le16_bytes(x));
}

/// Appends the two big-endian bytes of `x` to `out`.
pub fn push_be16(out: &mut Vec<u8>, x: u16)
    ensures
        final(out)@ == old(out)@ + be16_bytes(x),
{
    out.push((x / 0x100) as u8);
    out.push((x % 0x100) as u8);
    assert(final(out)@ =~= old(out)@ + be16_bytes(x));
}

/// Appends the four little-endian bytes of `x` to `out`.
pub fn push_le32(out: &mut Vec<u8>, x: u32)
    ensures
        final(out)@ == old(out)@ + le32_bytes(x),
{
    out.push((x % 0x100) as u8);
    out.push((x / 0x100 % 0x100) as u8);
    out.push((x / 0x10000 % 0x100) as u8);
    out.push((x / 0x1000000) as u8);
    assert(final(out)@ =~= old(out)@ + le32_bytes(x));
}

/// Appends the four big-endian bytes of `x` to `out`.
pub fn push_be32(out: &mut Vec<u8>, x: u32)
    ensures
        final(out)@ == old(out)@ + be32_bytes(x),
{
    out.push((x / 0x1000000) as u8);
    out.push((x / 0x10000 % 0x100) as u8);
    out.push((x / 0x100 % 0x100) as u8);
    out.push((x % 0x100) as u8);
    assert(final(out)@ =~= old(out)@ + be32_bytes(x));
}

/// Appends the eight little-endian bytes of `x` to `out`.
pub fn push_le64(out: &mut Vec<u8>, x: u64)
    ensures
        final(out)@ == old(out)@ + le64_bytes(x),
{
    out.push((x % 0x100) as u8);
    out.push((x / 0x100 % 0x100) as u8);
    out.push((x / 0x10000 % 0x100) as u8);
    out.push((x / 0x1000000 % 0x100) as u8);
    out.push((x / 0x100000000 % 0x100) as u8);
    out.push((x / 0x10000000000 % 0x100) as u8);
    out.push((x / 0x1000000000000 % 0x100) as u8);
    out.push((x / 0x100000000000000) as u8);
    assert(final(out)@ =~= old(out)@ + le64_bytes(x));
}

/// A sequence opens itself.
pub broadcast proof fn lemma_prefix_reflexive(a: Seq<u8>)
    ensures
        #[trigger] a.is_prefix_of(a),
{
    assert(a =~= a.subrange(0, a.len() as int));
}

/// A sequence opens itself.
pub proof fn lemma_prefix_refl(a: Seq<u8>)
    ensures
        a.is_prefix_of(a),
{
    assert(a =~= a.subrange(0, a.len() as int));
}

/// Opening a prefix of a prefix opens the whole: the chain form.
pub broadcast proof fn lemma_prefix_chain(a: Seq<u8>, b: Seq<u8>, c: Seq<u8>)
    ensures
        #![trigger a.is_prefix_of(b), b.is_prefix_of(c)]
        a.is_prefix_of(b) && b.is_prefix_of(c) ==> a.is_prefix_of(c),
{
    if a.is_prefix_of(b) && b.is_prefix_of(c) {
        assert(a =~= c.subrange(0, a.len() as int));
    }
}

/// A sequence opens anything it was extended to.
pub proof fn lemma_prefix_append(a: Seq<u8>, t: Seq<u8>)
    ensures
        a.is_prefix_of(a + t),
{
    assert(a =~= (a + t).subrange(0, a.len() as int));
}

/// Opening a prefix of a prefix opens the whole.
pub proof fn lemma_prefix_trans(a: Seq<u8>, b: Seq<u8>, c: Seq<u8>)
    requires
        a.is_prefix_of(b),
        b.is_prefix_of(c),
    ensures
        a.is_prefix_of(c),
{
    assert(a =~= c.subrange(0, a.len() as int));
}

/// A window into a prefix opens the same window into the whole.
pub proof fn lemma_skip_prefix(base: int, s_mid: Seq<u8>, s_new: Seq<u8>)
    requires
        0 <= base <= s_mid.len(),
        s_mid.is_prefix_of(s_new),
    ensures
        s_mid.skip(base).is_prefix_of(s_new.skip(base)),
{
    assert(s_mid.skip(base) =~= s_new.skip(base).subrange(0, s_mid.len() - base));
}

/// Round trip: reading back the little-endian bytes of a `u16` gives it back.
pub proof fn lemma_le16_round_trip(x: u16)
    ensures
        le16_of(le16_bytes(x)) == x,
{
}

/// Round trip: reading back the big-endian bytes of a `u16` gives it back.
pub proof fn lemma_be16_round_trip(x: u16)
    ensures
        be16_of(be16_bytes(x)) == x,
{
}

/// Round trip: reading back the little-endian bytes of a `u32` gives it back.
pub proof fn lemma_le32_round_trip(x: u32)
    ensures
        le32_of(le32_bytes(x)) == x,
{
}

/// Round trip: reading back the big-endian bytes of a `u32` gives it back.
pub proof fn lemma_be32_round_trip(x: u32)
    ensures
        be32_of(be32_bytes(x)) == x,
{
}

/// Round trip: reading back the little-endian bytes of a `u64` gives it back.
pub proof fn lemma_le64_round_trip(x: u64)
    ensures
        le64_of(le64_bytes(x)) == x,
{
    let v = x as int;
    let q1 = v / 0x100;
    let q2 = v / 0x10000;
    let q3 = v / 0x1000000;
    let q4 = v / 0x100000000;
    let q5 = v / 0x10000000000;
    let q6 = v / 0x1000000000000;
    let q7 = v / 0x100000000000000;
    vstd::arithmetic::div_mod::lemma_fundamental_div_mod(v, 0x100);
    vstd::arithmetic::div_mod::lemma_fundamental_div_mod(q1, 0x100);
    vstd::arithmetic::div_mod::lemma_fundamental_div_mod(q2, 0x100);
    vstd::arithmetic::div_mod::lemma_fundamental_div_mod(q3, 0x100);
    vstd::arithmetic::div_mod::lemma_fundamental_div_mod(q4, 0x100);
    vstd::arithmetic::div_mod::lemma_fundamental_div_mod(q5, 0x100);
    vstd::arithmetic::div_mod::lemma_fundamental_div_mod(q6, 0x100);
    vstd::arithmetic::div_mod::lemma_div_denominator(v, 0x100, 0x100);
    vstd::arithmetic::div_mod::lemma_div_denominator(v, 0x10000, 0x100);
    vstd::arithmetic::div_mod::lemma_div_denominator(v, 0x1000000, 0x100);
    vstd::arithmetic::div_mod::lemma_div_denominator(v, 0x100000000, 0x100);
    vstd::arithmetic::div_mod::lemma_div_denominator(v, 0x10000000000, 0x100);
    vstd::arithmetic::div_mod::lemma_div_denominator(v, 0x1000000000000, 0x100);
    assert(q1 / 0x100 == q2 && q2 / 0x100 == q3 && q3 / 0x100 == q4 && q4 / 0x100 == q5 && q5
        / 0x100 == q6 && q6 / 0x100 == q7);
    assert(q7 % 0x100 == q7) by {
        vstd::arithmetic::div_mod::lemma_small_mod(q7 as nat, 0x100);
    }
    assert(v % 0x100 + (q1 % 0x100) * 0x100 + (q2 % 0x100) * 0x10000 + (q3 % 0x100) * 0x1000000 + (
    q4 % 0x100) * 0x100000000 + (q5 % 0x100) * 0x10000000000 + (q6 % 0x100) * 0x1000000000000 + (q7
        % 0x100) * 0x100000000000000 == v);
}

} // verus!
