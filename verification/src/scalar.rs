//! Scalar endian codec: fixed-width unsigned integers are written to and
//! read from a byte buffer in an explicitly given byte order. Fields that
//! hold IEEE-754 bits on the wire are carried as `u32` bit patterns, so the
//! conversion is always a byte permutation and never a numeric transform.

use vstd::prelude::*;

use crate::ByteOrder;

verus! {

/// The single wire byte of a `u8`; written for uniformity with the wider widths.
pub open spec fn u8_bytes(v: u8) -> Seq<u8> {
    seq![v]
}

/// The two wire bytes of a `u16` in little-endian order.
pub open spec fn u16_le(v: u16) -> Seq<u8> {
    seq![(v & 0xff) as u8, ((v >> 8) & 0xff) as u8]
}

/// The two wire bytes of a `u16` in big-endian order.
pub open spec fn u16_be(v: u16) -> Seq<u8> {
    seq![((v >> 8) & 0xff) as u8, (v & 0xff) as u8]
}

/// The two wire bytes of a `u16` in the given byte order.
pub open spec fn u16_bytes(v: u16, o: ByteOrder) -> Seq<u8> {
    match o {
        ByteOrder::Little => u16_le(v),
        ByteOrder::Big => u16_be(v),
    }
}

/// The four wire bytes of a `u32` in little-endian order.
pub open spec fn u32_le(v: u32) -> Seq<u8> {
    seq![
        (v & 0xff) as u8,
        ((v >> 8) & 0xff) as u8,
        ((v >> 16) & 0xff) as u8,
        ((v >> 24) & 0xff) as u8,
    ]
}

/// The four wire bytes of a `u32` in big-endian order.
pub open spec fn u32_be(v: u32) -> Seq<u8> {
    seq![
        ((v >> 24) & 0xff) as u8,
        ((v >> 16) & 0xff) as u8,
        ((v >> 8) & 0xff) as u8,
        (v & 0xff) as u8,
    ]
}

/// The four wire bytes of a `u32` in the given byte order.
pub open spec fn u32_bytes(v: u32, o: ByteOrder) -> Seq<u8> {
    match o {
        ByteOrder::Little => u32_le(v),
        ByteOrder::Big => u32_be(v),
    }
}

/// The `u16` whose little-endian wire bytes are `b0, b1`.
pub open spec fn u16_of(b0: u8, b1: u8) -> u16 {
    (b0 as u16) | ((b1 as u16) << 8)
}

/// The `u32` whose little-endian wire bytes are `b0, b1, b2, b3`.
pub open spec fn u32_of(b0: u8, b1: u8, b2: u8, b3: u8) -> u32 {
    (b0 as u32) | ((b1 as u32) << 8) | ((b2 as u32) << 16) | ((b3 as u32) << 24)
}

/// The `u16` stored at byte position `i` of `data` in the given byte order.
pub open spec fn u16_at(data: Seq<u8>, i: int, o: ByteOrder) -> u16 {
    match o {
        ByteOrder::Little => u16_of(data[i], data[i + 1]),
        ByteOrder::Big => u16_of(data[i + 1], data[i]),
    }
}

/// The `u32` stored at byte position `i` of `data` in the given byte order.
pub open spec fn u32_at(data: Seq<u8>, i: int, o: ByteOrder) -> u32 {
    match o {
        ByteOrder::Little => u32_of(data[i], data[i + 1], data[i + 2], data[i + 3]),
        ByteOrder::Big => u32_of(data[i + 3], data[i + 2], data[i + 1], data[i]),
    }
}

/// Splitting a `u16` into bytes and reassembling them is the identity.
pub proof fn lemma_u16_compose(v: u16)
    by (bit_vector)
    ensures
        u16_of((v & 0xff) as u8, ((v >> 8) & 0xff) as u8) == v,
{
}

/// Reassembling two bytes into a `u16` and splitting it again is the identity.
pub proof fn lemma_u16_decompose(b0: u8, b1: u8)
    by (bit_vector)
    ensures
        (u16_of(b0, b1) & 0xff) as u8 == b0,
        ((u16_of(b0, b1) >> 8) & 0xff) as u8 == b1,
{
}

/// Splitting a `u32` into bytes and reassembling them is the identity.
pub proof fn lemma_u32_compose(v: u32)
    by (bit_vector)
    ensures
        u32_of(
            (v & 0xff) as u8,
            ((v >> 8) & 0xff) as u8,
            ((v >> 16) & 0xff) as u8,
            ((v >> 24) & 0xff) as u8,
        ) == v,
{
}

/// Reassembling four bytes into a `u32` and splitting it again is the identity.
pub proof fn lemma_u32_decompose(b0: u8, b1: u8, b2: u8, b3: u8)
    by (bit_vector)
    ensures
        (u32_of(b0, b1, b2, b3) & 0xff) as u8 == b0,
        ((u32_of(b0, b1, b2, b3) >> 8) & 0xff) as u8 == b1,
        ((u32_of(b0, b1, b2, b3) >> 16) & 0xff) as u8 == b2,
        ((u32_of(b0, b1, b2, b3) >> 24) & 0xff) as u8 == b3,
{
}

/// Round-trip identity at the value level for single bytes: the byte read
/// back is the byte written, whatever the byte order.
pub proof fn lemma_u8_round_trip(v: u8)
    ensures
        u8_bytes(v)[0] == v,
{
}

/// Round-trip identity at the value level: the `u16` read back from the wire
/// bytes of `v`, in the same byte order, is `v` itself.
pub proof fn lemma_u16_round_trip(v: u16, o: ByteOrder)
    ensures
        u16_at(u16_bytes(v, o), 0, o) == v,
{
    lemma_u16_compose(v);
}

/// Round-trip identity at the value level: the `u32` read back from the wire
/// bytes of `v`, in the same byte order, is `v` itself.
pub proof fn lemma_u32_round_trip(v: u32, o: ByteOrder)
    ensures
        u32_at(u32_bytes(v, o), 0, o) == v,
{
    lemma_u32_compose(v);
}

/// A window of `data` that holds the wire bytes of `v` reads back as `v`:
/// the single-byte case.
pub proof fn lemma_u8_at_of_bytes(data: Seq<u8>, a: int, v: u8)
    requires
        0 <= a,
        a + 1 <= data.len(),
        data.subrange(a, a + 1) == u8_bytes(v),
    ensures
        data[a] == v,
{
    assert(data[a] == data.subrange(a, a + 1)[0]);
}

/// A window of `data` that holds the wire bytes of `v` reads back as `v`.
pub proof fn lemma_u16_at_of_bytes(data: Seq<u8>, a: int, v: u16, o: ByteOrder)
    requires
        0 <= a,
        a + 2 <= data.len(),
        data.subrange(a, a + 2) == u16_bytes(v, o),
    ensures
        u16_at(data, a, o) == v,
{
    assert(data[a] == data.subrange(a, a + 2)[0]);
    assert(data[a + 1] == data.subrange(a, a + 2)[1]);
    lemma_u16_compose(v);
}

/// A window of `data` that holds the wire bytes of `v` reads back as `v`.
pub proof fn lemma_u32_at_of_bytes(data: Seq<u8>, a: int, v: u32, o: ByteOrder)
    requires
        0 <= a,
        a + 4 <= data.len(),
        data.subrange(a, a + 4) == u32_bytes(v, o),
    ensures
        u32_at(data, a, o) == v,
{
    assert(data[a] == data.subrange(a, a + 4)[0]);
    assert(data[a + 1] == data.subrange(a, a + 4)[1]);
    assert(data[a + 2] == data.subrange(a, a + 4)[2]);
    assert(data[a + 3] == data.subrange(a, a + 4)[3]);
    lemma_u32_compose(v);
}

/// Append the single byte of `v` to `out`.
pub fn put_u8(out: &mut Vec<u8>, v: u8)
    ensures
        final(out)@ == old(out)@ + u8_bytes(v),
{
    out.push(v);
    proof {
        assert(out@ =~= old(out)@ + u8_bytes(v));
    }
}

/// Append the two wire bytes of `v` to `out` in byte order `o`.
pub fn put_u16(out: &mut Vec<u8>, v: u16, o: ByteOrder)
    ensures
        final(out)@ == old(out)@ + u16_bytes(v, o),
{
    let lo: u8 = (v & 0xff) as u8;
    let hi: u8 = ((v >> 8) & 0xff) as u8;
    match o {
        ByteOrder::Little => {
            out.push(lo);
            out.push(hi);
        }
        ByteOrder::Big => {
            out.push(hi);
            out.push(lo);
        }
    }
    proof {
        assert(out@ =~= old(out)@ + u16_bytes(v, o));
    }
}

/// Append the four wire bytes of `v` to `out` in byte order `o`.
pub fn put_u32(out: &mut Vec<u8>, v: u32, o: ByteOrder)
    ensures
        final(out)@ == old(out)@ + u32_bytes(v, o),
{
    let b0: u8 = (v & 0xff) as u8;
    let b1: u8 = ((v >> 8) & 0xff) as u8;
    let b2: u8 = ((v >> 16) & 0xff) as u8;
    let b3: u8 = ((v >> 24) & 0xff) as u8;
    match o {
        ByteOrder::Little => {
            out.push(b0);
            out.push(b1);
            out.push(b2);
            out.push(b3);
        }
        ByteOrder::Big => {
            out.push(b3);
            out.push(b2);
            out.push(b1);
            out.push(b0);
        }
    }
    proof {
        assert(out@ =~= old(out)@ + u32_bytes(v, o));
    }
}

/// Read one byte at `*pos`, advancing `*pos`; the caller has checked that it
/// is there.
pub fn take_u8(data: &Vec<u8>, pos: &mut usize) -> (v: u8)
    requires
        *old(pos) + 1 <= data@.len(),
    ensures
        *final(pos) == *old(pos) + 1,
        v == data@[*old(pos) as int],
        u8_bytes(v) == data@.subrange(*old(pos) as int, *old(pos) + 1),
{
    let _dlen: usize = data.len();
    let v: u8 = data[*pos];
    proof {
        assert(u8_bytes(v) =~= data@.subrange(*pos as int, *pos + 1));
    }
    *pos = *pos + 1;
    v
}

/// Read a `u16` at `*pos` in byte order `o`, advancing `*pos`; the caller has
/// checked that both bytes are there.
pub fn take_u16(data: &Vec<u8>, pos: &mut usize, o: ByteOrder) -> (v: u16)
    requires
        *old(pos) + 2 <= data@.len(),
    ensures
        *final(pos) == *old(pos) + 2,
        v == u16_at(data@, *old(pos) as int, o),
        u16_bytes(v, o) == data@.subrange(*old(pos) as int, *old(pos) + 2),
{
    let _dlen: usize = data.len();
    let b0: u8 = data[*pos];
    let b1: u8 = data[*pos + 1];
    let v: u16 = match o {
        ByteOrder::Little => (b0 as u16) | ((b1 as u16) << 8),
        ByteOrder::Big => (b1 as u16) | ((b0 as u16) << 8),
    };
    proof {
        lemma_u16_decompose(b0, b1);
        lemma_u16_decompose(b1, b0);
        assert(u16_bytes(v, o) =~= data@.subrange(*pos as int, *pos + 2));
    }
    *pos = *pos + 2;
    v
}

/// Read a `u32` at `*pos` in byte order `o`, advancing `*pos`; the caller has
/// checked that all four bytes are there.
pub fn take_u32(data: &Vec<u8>, pos: &mut usize, o: ByteOrder) -> (v: u32)
    requires
        *old(pos) + 4 <= data@.len(),
    ensures
        *final(pos) == *old(pos) + 4,
        v == u32_at(data@, *old(pos) as int, o),
        u32_bytes(v, o) == data@.subrange(*old(pos) as int, *old(pos) + 4),
{
    let _dlen: usize = data.len();
    let b0: u8 = data[*pos];
    let b1: u8 = data[*pos + 1];
    let b2: u8 = data[*pos + 2];
    let b3: u8 = data[*pos + 3];
    let v: u32 = match o {
        ByteOrder::Little => {
            (b0 as u32) | ((b1 as u32) << 8) | ((b2 as u32) << 16) | ((b3 as u32) << 24)
        }
        ByteOrder::Big => {
            (b3 as u32) | ((b2 as u32) << 8) | ((b1 as u32) << 16) | ((b0 as u32) << 24)
        }
    };
    proof {
        lemma_u32_decompose(b0, b1, b2, b3);
        lemma_u32_decompose(b3, b2, b1, b0);
        assert(u32_bytes(v, o) =~= data@.subrange(*pos as int, *pos + 4));
    }
    *pos = *pos + 4;
    v
}

/// Read one byte at `*pos`, advancing `*pos`; `None` exactly when the buffer
/// ends before the read completes, leaving `*pos` unchanged.
pub fn get_u8(data: &Vec<u8>, pos: &mut usize) -> (r: Option<u8>)
    ensures
        match r {
            Some(v) => {
                &&& *old(pos) + 1 <= data@.len()
                &&& *final(pos) == *old(pos) + 1
                &&& v == data@[*old(pos) as int]
            }
            None => {
                &&& *old(pos) + 1 > data@.len()
                &&& *final(pos) == *old(pos)
            }
        },
{
    if *pos < data.len() {
        Some(take_u8(data, pos))
    } else {
        None
    }
}

/// Read a `u16` at `*pos` in byte order `o`, advancing `*pos`; `None` exactly
/// when the buffer ends before the read completes, leaving `*pos` unchanged.
pub fn get_u16(data: &Vec<u8>, pos: &mut usize, o: ByteOrder) -> (r: Option<u16>)
    ensures
        match r {
            Some(v) => {
                &&& *old(pos) + 2 <= data@.len()
                &&& *final(pos) == *old(pos) + 2
                &&& v == u16_at(data@, *old(pos) as int, o)
                &&& u16_bytes(v, o) == data@.subrange(*old(pos) as int, *old(pos) + 2)
            }
            None => {
                &&& *old(pos) + 2 > data@.len()
                &&& *final(pos) == *old(pos)
            }
        },
{
    if data.len() >= 2 && *pos <= data.len() - 2 {
        Some(take_u16(data, pos, o))
    } else {
        None
    }
}

/// Read a `u32` at `*pos` in byte order `o`, advancing `*pos`; `None` exactly
/// when the buffer ends before the read completes, leaving `*pos` unchanged.
pub fn get_u32(data: &Vec<u8>, pos: &mut usize, o: ByteOrder) -> (r: Option<u32>)
    ensures
        match r {
            Some(v) => {
                &&& *old(pos) + 4 <= data@.len()
                &&& *final(pos) == *old(pos) + 4
                &&& v == u32_at(data@, *old(pos) as int, o)
                &&& u32_bytes(v, o) == data@.subrange(*old(pos) as int, *old(pos) + 4)
            }
            None => {
                &&& *old(pos) + 4 > data@.len()
                &&& *final(pos) == *old(pos)
            }
        },
{
    if data.len() >= 4 && *pos <= data.len() - 4 {
        Some(take_u32(data, pos, o))
    } else {
        None
    }
}

/// The `u16` whose wire bytes in order `to` are the wire bytes of `v` in
/// order `from`: the identity when the orders agree, a byte swap otherwise.
pub open spec fn spec_retag_u16(v: u16, from: ByteOrder, to: ByteOrder) -> u16 {
    if from == to {
        v
    } else {
        (v << 8) | (v >> 8)
    }
}

/// The `u32` whose wire bytes in order `to` are the wire bytes of `v` in
/// order `from`: the identity when the orders agree, a byte reversal otherwise.
pub open spec fn spec_retag_u32(v: u32, from: ByteOrder, to: ByteOrder) -> u32 {
    if from == to {
        v
    } else {
        (v << 24) | ((v & 0xff00) << 8) | ((v >> 8) & 0xff00) | (v >> 24)
    }
}

/// Re-tag a `u16` from byte order `from` to byte order `to`, keeping the raw
/// wire bytes unchanged. This is a byte permutation, never a numeric cast.
pub fn retag_u16(v: u16, from: ByteOrder, to: ByteOrder) -> (r: u16)
    ensures
        r == spec_retag_u16(v, from, to),
        u16_bytes(r, to) == u16_bytes(v, from),
{
    proof {
        lemma_retag_u16_keeps_bytes(v, from, to);
    }
    if from == to {
        v
    } else {
        (v << 8u16) | (v >> 8u16)
    }
}

/// Re-tag a `u32` from byte order `from` to byte order `to`, keeping the raw
/// wire bytes unchanged. This is a byte permutation, never a numeric cast.
pub fn retag_u32(v: u32, from: ByteOrder, to: ByteOrder) -> (r: u32)
    ensures
        r == spec_retag_u32(v, from, to),
        u32_bytes(r, to) == u32_bytes(v, from),
{
    proof {
        lemma_retag_u32_keeps_bytes(v, from, to);
    }
    if from == to {
        v
    } else {
        (v << 24u32) | ((v & 0xff00) << 8u32) | ((v >> 8u32) & 0xff00) | (v >> 24u32)
    }
}

/// Re-tagging preserves the raw wire bytes: the bytes of the re-tagged value
/// in the target order are exactly the bytes of the original in the source
/// order.
pub proof fn lemma_retag_u16_keeps_bytes(v: u16, from: ByteOrder, to: ByteOrder)
    ensures
        u16_bytes(spec_retag_u16(v, from, to), to) == u16_bytes(v, from),
{
    if from == to {
        assert(u16_bytes(v, to) =~= u16_bytes(v, from));
    } else {
        let w = (v << 8) | (v >> 8);
        assert((w & 0xff) as u8 == ((v >> 8) & 0xff) as u8) by (bit_vector)
            requires
                w == (v << 8) | (v >> 8),
        ;
        assert(((w >> 8) & 0xff) as u8 == (v & 0xff) as u8) by (bit_vector)
            requires
                w == (v << 8) | (v >> 8),
        ;
        assert(u16_bytes(spec_retag_u16(v, from, to), to) =~= u16_bytes(v, from));
    }
}

/// Re-tagging preserves the raw wire bytes, `u32` version.
pub proof fn lemma_retag_u32_keeps_bytes(v: u32, from: ByteOrder, to: ByteOrder)
    ensures
        u32_bytes(spec_retag_u32(v, from, to), to) == u32_bytes(v, from),
{
    if from == to {
        assert(u32_bytes(v, to) =~= u32_bytes(v, from));
    } else {
        let w = (v << 24) | ((v & 0xff00) << 8) | ((v >> 8) & 0xff00) | (v >> 24);
        assert((w & 0xff) as u8 == ((v >> 24) & 0xff) as u8
            && ((w >> 8) & 0xff) as u8 == ((v >> 16) & 0xff) as u8
            && ((w >> 16) & 0xff) as u8 == ((v >> 8) & 0xff) as u8
            && ((w >> 24) & 0xff) as u8 == (v & 0xff) as u8) by (bit_vector)
            requires
                w == (v << 24) | ((v & 0xff00) << 8) | ((v >> 8) & 0xff00) | (v >> 24),
        ;
        assert(u32_bytes(spec_retag_u32(v, from, to), to) =~= u32_bytes(v, from));
    }
}

/// A run of `n` zero bytes, as left by the writer in alignment gaps and
/// reserved regions.
pub open spec fn zero_bytes(n: int) -> Seq<u8> {
    Seq::new(n as nat, |i: int| 0u8)
}

/// A concatenation splits back into its two parts.
pub proof fn lemma_concat_split(x: Seq<u8>, y: Seq<u8>)
    ensures
        (x + y).subrange(0, x.len() as int) == x,
        (x + y).subrange(x.len() as int, x.len() + y.len() as int) == y,
{
    assert((x + y).subrange(0, x.len() as int) =~= x);
    assert((x + y).subrange(x.len() as int, x.len() + y.len() as int) =~= y);
}

/// A subrange of a subrange is the corresponding subrange of the whole.
pub proof fn lemma_subrange_of_subrange(s: Seq<u8>, a: int, b: int, c: int, d: int)
    requires
        0 <= a <= b <= s.len(),
        0 <= c <= d <= b - a,
    ensures
        s.subrange(a, b).subrange(c, d) == s.subrange(a + c, a + d),
{
    assert(s.subrange(a, b).subrange(c, d) =~= s.subrange(a + c, a + d));
}

/// Two adjacent subranges concatenate to the enclosing subrange.
pub proof fn lemma_concat_subrange(data: Seq<u8>, a: int, b: int, c: int)
    requires
        0 <= a <= b <= c <= data.len(),
    ensures
        data.subrange(a, b) + data.subrange(b, c) == data.subrange(a, c),
{
    assert(data.subrange(a, b) + data.subrange(b, c) =~= data.subrange(a, c));
}

/// Changing the byte order reverses a field's wire bytes in place; this is
/// the whole difference between the two encodings of any record, since
/// every multi-byte field goes through `u16_bytes` or `u32_bytes` and
/// single bytes are order-independent.
pub proof fn lemma_u16_bytes_reverse(v: u16)
    ensures
        u16_bytes(v, ByteOrder::Big) == u16_bytes(v, ByteOrder::Little).reverse(),
{
    assert(u16_bytes(v, ByteOrder::Big) =~= u16_bytes(v, ByteOrder::Little).reverse());
}

/// Changing the byte order reverses a field's wire bytes in place, `u32`
/// version.
pub proof fn lemma_u32_bytes_reverse(v: u32)
    ensures
        u32_bytes(v, ByteOrder::Big) == u32_bytes(v, ByteOrder::Little).reverse(),
{
    assert(u32_bytes(v, ByteOrder::Big) =~= u32_bytes(v, ByteOrder::Little).reverse());
}

/// Order conversion is a bijection: re-tagging a `u16` from `a` to `b` and
/// back reproduces the original value, hence the original raw bytes.
pub proof fn lemma_retag_u16_involution(v: u16, a: ByteOrder, b: ByteOrder)
    ensures
        spec_retag_u16(spec_retag_u16(v, a, b), b, a) == v,
{
    if a != b {
        let w = (v << 8) | (v >> 8);
        assert((w << 8) | (w >> 8) == v) by (bit_vector)
            requires
                w == (v << 8) | (v >> 8),
        ;
    }
}

/// Order conversion is a bijection: re-tagging a `u32` from `a` to `b` and
/// back reproduces the original value, hence the original raw bytes.
pub proof fn lemma_retag_u32_involution(v: u32, a: ByteOrder, b: ByteOrder)
    ensures
        spec_retag_u32(spec_retag_u32(v, a, b), b, a) == v,
{
    if a != b {
        let w = (v << 24) | ((v & 0xff00) << 8) | ((v >> 8) & 0xff00) | (v >> 24);
        assert((w << 24) | ((w & 0xff00) << 8) | ((w >> 8) & 0xff00) | (w >> 24) == v)
            by (bit_vector)
            requires
                w == (v << 24) | ((v & 0xff00) << 8) | ((v >> 8) & 0xff00) | (v >> 24),
        ;
    }
}

/// The wire bytes of a run of `u32` words, one after the other, in byte
/// order `o`; the shape of every offset table in the container.
pub open spec fn u32_words(vals: Seq<u32>, o: ByteOrder) -> Seq<u8>
    decreases vals.len(),
{
    if vals.len() == 0 {
        Seq::empty()
    } else {
        u32_words(vals.drop_last(), o) + u32_bytes(vals.last(), o)
    }
}

/// A run of words occupies four bytes per word.
pub proof fn lemma_u32_words_len(vals: Seq<u32>, o: ByteOrder)
    ensures
        u32_words(vals, o).len() == 4 * vals.len(),
    decreases vals.len(),
{
    if vals.len() > 0 {
        lemma_u32_words_len(vals.drop_last(), o);
    }
}

/// Append `n` zero bytes to `out`.
pub fn push_zeros(out: &mut Vec<u8>, n: usize)
    ensures
        final(out)@ == old(out)@ + zero_bytes(n as int),
{
    let mut j: usize = 0;
    while j < n
        invariant
            0 <= j <= n,
            out@ == old(out)@ + zero_bytes(j as int),
        decreases n - j,
    {
        out.push(0u8);
        j = j + 1;
        proof {
            assert(out@ =~= old(out)@ + zero_bytes(j as int));
        }
    }
    proof {
        assert(out@ =~= old(out)@ + zero_bytes(n as int));
    }
}

/// Overwrite the four bytes at position `i` of `out` with the wire bytes of
/// `v` in byte order `o`, leaving everything else unchanged.
pub fn set_u32_at(out: &mut Vec<u8>, i: usize, v: u32, o: ByteOrder)
    requires
        i + 4 <= old(out)@.len(),
    ensures
        final(out)@ == old(out)@.take(i as int) + u32_bytes(v, o) + old(out)@.skip(i + 4),
{
    let _dlen: usize = out.len();
    let b0: u8 = (v & 0xff) as u8;
    let b1: u8 = ((v >> 8) & 0xff) as u8;
    let b2: u8 = ((v >> 16) & 0xff) as u8;
    let b3: u8 = ((v >> 24) & 0xff) as u8;
    match o {
        ByteOrder::Little => {
            out.set(i, b0);
            out.set(i + 1, b1);
            out.set(i + 2, b2);
            out.set(i + 3, b3);
        }
        ByteOrder::Big => {
            out.set(i, b3);
            out.set(i + 1, b2);
            out.set(i + 2, b1);
            out.set(i + 3, b0);
        }
    }
    proof {
        assert(out@ =~= old(out)@.take(i as int) + u32_bytes(v, o) + old(out)@.skip(i + 4));
    }
}

/// Overwrite the `4 * vals.len()` bytes at position `at` of `out` with the
/// run of words `vals` in byte order `o`, leaving everything else unchanged;
/// this is the backfill step of the reserve-write-backfill protocol.
pub fn patch_u32_words(out: &mut Vec<u8>, at: usize, vals: &Vec<u32>, o: ByteOrder)
    requires
        at + 4 * vals@.len() <= old(out)@.len(),
    ensures
        final(out)@ == old(out)@.take(at as int) + u32_words(vals@, o) + old(out)@.skip(
            at + 4 * vals@.len(),
        ),
{
    let _dlen: usize = out.len();
    let n: usize = vals.len();
    let mut k: usize = 0;
    while k < n
        invariant
            0 <= k <= n,
            n == vals@.len(),
            at + 4 * n <= old(out)@.len(),
            old(out)@.len() <= usize::MAX,
            out@.len() == old(out)@.len(),
            out@ == old(out)@.take(at as int) + u32_words(vals@.take(k as int), o)
                + old(out)@.skip(at + 4 * k),
        decreases n - k,
    {
        set_u32_at(out, at + 4 * k, vals[k], o);
        k = k + 1;
        proof {
            lemma_u32_words_len(vals@.take(k as int), o);
            lemma_u32_words_len(vals@.take(k - 1), o);
            assert(vals@.take(k as int).drop_last() =~= vals@.take(k - 1));
            assert(out@ =~= old(out)@.take(at as int) + u32_words(vals@.take(k as int), o)
                + old(out)@.skip(at + 4 * k));
        }
    }
    proof {
        assert(vals@.take(n as int) =~= vals@);
        assert(out@ =~= old(out)@.take(at as int) + u32_words(vals@, o) + old(out)@.skip(
            at + 4 * n,
        ));
    }
}

} // verus!
