//! Effect groups: one variably-sized record holding an effect count, a
//! fixed header of reserved scalars, an eleven-byte reserved gap, and a
//! count-prefixed run of effect records. The reserved gap is not read by the
//! decoder; the encoder always zero-fills it, a deliberate choice that makes
//! compilation deterministic.

use vstd::prelude::*;

use crate::ByteOrder;
use crate::EffError;
use crate::effect::Effect;
use crate::scalar::{
    lemma_concat_split, lemma_concat_subrange, lemma_subrange_of_subrange,
    lemma_u16_at_of_bytes, lemma_u32_at_of_bytes, lemma_u8_at_of_bytes, put_u16, put_u32,
    put_u8, take_u16, take_u32, take_u8, u16_at, u16_bytes, u32_at, u32_bytes, u8_bytes,
    zero_bytes,
};

verus! {

/// The fixed header of an effect group after its effect count: thirteen
/// reserved scalars carried verbatim; six of them are IEEE-754 bit patterns.
#[derive(Clone, Copy, PartialEq, Eq, Structural, Debug)]
pub struct GroupHeader {
    pub unknown_x02: u16,
    pub unknown_x04: u16,
    pub unknown_x06: u16,
    pub unknown_x08: u16,
    pub unknown_x0a: u8,
    pub unknown_x0b: u8,
    pub unknown_x0c: u32,
    pub unknown_x10: u32,
    pub unknown_x14: u32,
    pub unknown_x18: u32,
    pub unknown_x1c: u32,
    pub unknown_x20: u32,
    pub unknown_x24: u8,
}

impl GroupHeader {
    /// The 35 wire bytes of the header fields in byte order `o` (the effect
    /// count that precedes them on the wire is not part of this group).
    pub open spec fn wire(self, o: ByteOrder) -> Seq<u8> {
        u16_bytes(self.unknown_x02, o) + u16_bytes(self.unknown_x04, o)
            + u16_bytes(self.unknown_x06, o) + u16_bytes(self.unknown_x08, o)
            + u8_bytes(self.unknown_x0a) + u8_bytes(self.unknown_x0b)
            + u32_bytes(self.unknown_x0c, o) + u32_bytes(self.unknown_x10, o)
            + u32_bytes(self.unknown_x14, o) + u32_bytes(self.unknown_x18, o)
            + u32_bytes(self.unknown_x1c, o) + u32_bytes(self.unknown_x20, o)
            + u8_bytes(self.unknown_x24)
    }

    /// The header stored at byte position `i` of `data` in byte order `o`.
    pub open spec fn decoded_at(data: Seq<u8>, i: int, o: ByteOrder) -> GroupHeader {
        GroupHeader {
            unknown_x02: u16_at(data, i, o),
            unknown_x04: u16_at(data, i + 2, o),
            unknown_x06: u16_at(data, i + 4, o),
            unknown_x08: u16_at(data, i + 6, o),
            unknown_x0a: data[i + 8],
            unknown_x0b: data[i + 9],
            unknown_x0c: u32_at(data, i + 10, o),
            unknown_x10: u32_at(data, i + 14, o),
            unknown_x14: u32_at(data, i + 18, o),
            unknown_x18: u32_at(data, i + 22, o),
            unknown_x1c: u32_at(data, i + 26, o),
            unknown_x20: u32_at(data, i + 30, o),
            unknown_x24: data[i + 34],
        }
    }

    /// Decoding any window of `data` that holds this record's wire bytes
    /// yields the record back: the codec loses nothing.
    #[verifier::rlimit(60)]
    pub proof fn lemma_decoded_of_wire(data: Seq<u8>, i: int, x: GroupHeader, o: ByteOrder)
        requires
            0 <= i,
            i + 35 <= data.len(),
            data.subrange(i, i + 35) == x.wire(o),
        ensures
            GroupHeader::decoded_at(data, i, o) == x,
    {
        assert(u16_bytes(x.unknown_x02, o).len() == 2);
        assert(u16_bytes(x.unknown_x04, o).len() == 2);
        assert(u16_bytes(x.unknown_x06, o).len() == 2);
        assert(u16_bytes(x.unknown_x08, o).len() == 2);
        assert(u8_bytes(x.unknown_x0a).len() == 1);
        assert(u8_bytes(x.unknown_x0b).len() == 1);
        assert(u32_bytes(x.unknown_x0c, o).len() == 4);
        assert(u32_bytes(x.unknown_x10, o).len() == 4);
        assert(u32_bytes(x.unknown_x14, o).len() == 4);
        assert(u32_bytes(x.unknown_x18, o).len() == 4);
        assert(u32_bytes(x.unknown_x1c, o).len() == 4);
        assert(u32_bytes(x.unknown_x20, o).len() == 4);
        assert(u8_bytes(x.unknown_x24).len() == 1);
        assert(x.wire(o).subrange(0, 35) =~= x.wire(o));
        lemma_concat_split(u16_bytes(x.unknown_x02, o) + u16_bytes(x.unknown_x04, o) + u16_bytes(x.unknown_x06, o) + u16_bytes(x.unknown_x08, o) + u8_bytes(x.unknown_x0a) + u8_bytes(x.unknown_x0b) + u32_bytes(x.unknown_x0c, o) + u32_bytes(x.unknown_x10, o) + u32_bytes(x.unknown_x14, o) + u32_bytes(x.unknown_x18, o) + u32_bytes(x.unknown_x1c, o) + u32_bytes(x.unknown_x20, o), u8_bytes(x.unknown_x24));
        assert(x.wire(o).subrange(0, 34) == u16_bytes(x.unknown_x02, o) + u16_bytes(x.unknown_x04, o) + u16_bytes(x.unknown_x06, o) + u16_bytes(x.unknown_x08, o) + u8_bytes(x.unknown_x0a) + u8_bytes(x.unknown_x0b) + u32_bytes(x.unknown_x0c, o) + u32_bytes(x.unknown_x10, o) + u32_bytes(x.unknown_x14, o) + u32_bytes(x.unknown_x18, o) + u32_bytes(x.unknown_x1c, o) + u32_bytes(x.unknown_x20, o));
        assert(x.wire(o).subrange(34, 35) == u8_bytes(x.unknown_x24));
        lemma_concat_split(u16_bytes(x.unknown_x02, o) + u16_bytes(x.unknown_x04, o) + u16_bytes(x.unknown_x06, o) + u16_bytes(x.unknown_x08, o) + u8_bytes(x.unknown_x0a) + u8_bytes(x.unknown_x0b) + u32_bytes(x.unknown_x0c, o) + u32_bytes(x.unknown_x10, o) + u32_bytes(x.unknown_x14, o) + u32_bytes(x.unknown_x18, o) + u32_bytes(x.unknown_x1c, o), u32_bytes(x.unknown_x20, o));
        lemma_subrange_of_subrange(x.wire(o), 0, 34, 0, 30);
        lemma_subrange_of_subrange(x.wire(o), 0, 34, 30, 34);
        assert(x.wire(o).subrange(0, 30) == u16_bytes(x.unknown_x02, o) + u16_bytes(x.unknown_x04, o) + u16_bytes(x.unknown_x06, o) + u16_bytes(x.unknown_x08, o) + u8_bytes(x.unknown_x0a) + u8_bytes(x.unknown_x0b) + u32_bytes(x.unknown_x0c, o) + u32_bytes(x.unknown_x10, o) + u32_bytes(x.unknown_x14, o) + u32_bytes(x.unknown_x18, o) + u32_bytes(x.unknown_x1c, o));
        assert(x.wire(o).subrange(30, 34) == u32_bytes(x.unknown_x20, o));
        lemma_concat_split(u16_bytes(x.unknown_x02, o) + u16_bytes(x.unknown_x04, o) + u16_bytes(x.unknown_x06, o) + u16_bytes(x.unknown_x08, o) + u8_bytes(x.unknown_x0a) + u8_bytes(x.unknown_x0b) + u32_bytes(x.unknown_x0c, o) + u32_bytes(x.unknown_x10, o) + u32_bytes(x.unknown_x14, o) + u32_bytes(x.unknown_x18, o), u32_bytes(x.unknown_x1c, o));
        lemma_subrange_of_subrange(x.wire(o), 0, 30, 0, 26);
        lemma_subrange_of_subrange(x.wire(o), 0, 30, 26, 30);
        assert(x.wire(o).subrange(0, 26) == u16_bytes(x.unknown_x02, o) + u16_bytes(x.unknown_x04, o) + u16_bytes(x.unknown_x06, o) + u16_bytes(x.unknown_x08, o) + u8_bytes(x.unknown_x0a) + u8_bytes(x.unknown_x0b) + u32_bytes(x.unknown_x0c, o) + u32_bytes(x.unknown_x10, o) + u32_bytes(x.unknown_x14, o) + u32_bytes(x.unknown_x18, o));
        assert(x.wire(o).subrange(26, 30) == u32_bytes(x.unknown_x1c, o));
        lemma_concat_split(u16_bytes(x.unknown_x02, o) + u16_bytes(x.unknown_x04, o) + u16_bytes(x.unknown_x06, o) + u16_bytes(x.unknown_x08, o) + u8_bytes(x.unknown_x0a) + u8_bytes(x.unknown_x0b) + u32_bytes(x.unknown_x0c, o) + u32_bytes(x.unknown_x10, o) + u32_bytes(x.unknown_x14, o), u32_bytes(x.unknown_x18, o));
        lemma_subrange_of_subrange(x.wire(o), 0, 26, 0, 22);
        lemma_subrange_of_subrange(x.wire(o), 0, 26, 22, 26);
        assert(x.wire(o).subrange(0, 22) == u16_bytes(x.unknown_x02, o) + u16_bytes(x.unknown_x04, o) + u16_bytes(x.unknown_x06, o) + u16_bytes(x.unknown_x08, o) + u8_bytes(x.unknown_x0a) + u8_bytes(x.unknown_x0b) + u32_bytes(x.unknown_x0c, o) + u32_bytes(x.unknown_x10, o) + u32_bytes(x.unknown_x14, o));
        assert(x.wire(o).subrange(22, 26) == u32_bytes(x.unknown_x18, o));
        lemma_concat_split(u16_bytes(x.unknown_x02, o) + u16_bytes(x.unknown_x04, o) + u16_bytes(x.unknown_x06, o) + u16_bytes(x.unknown_x08, o) + u8_bytes(x.unknown_x0a) + u8_bytes(x.unknown_x0b) + u32_bytes(x.unknown_x0c, o) + u32_bytes(x.unknown_x10, o), u32_bytes(x.unknown_x14, o));
        lemma_subrange_of_subrange(x.wire(o), 0, 22, 0, 18);
        lemma_subrange_of_subrange(x.wire(o), 0, 22, 18, 22);
        assert(x.wire(o).subrange(0, 18) == u16_bytes(x.unknown_x02, o) + u16_bytes(x.unknown_x04, o) + u16_bytes(x.unknown_x06, o) + u16_bytes(x.unknown_x08, o) + u8_bytes(x.unknown_x0a) + u8_bytes(x.unknown_x0b) + u32_bytes(x.unknown_x0c, o) + u32_bytes(x.unknown_x10, o));
        assert(x.wire(o).subrange(18, 22) == u32_bytes(x.unknown_x14, o));
        lemma_concat_split(u16_bytes(x.unknown_x02, o) + u16_bytes(x.unknown_x04, o) + u16_bytes(x.unknown_x06, o) + u16_bytes(x.unknown_x08, o) + u8_bytes(x.unknown_x0a) + u8_bytes(x.unknown_x0b) + u32_bytes(x.unknown_x0c, o), u32_bytes(x.unknown_x10, o));
        lemma_subrange_of_subrange(x.wire(o), 0, 18, 0, 14);
        lemma_subrange_of_subrange(x.wire(o), 0, 18, 14, 18);
        assert(x.wire(o).subrange(0, 14) == u16_bytes(x.unknown_x02, o) + u16_bytes(x.unknown_x04, o) + u16_bytes(x.unknown_x06, o) + u16_bytes(x.unknown_x08, o) + u8_bytes(x.unknown_x0a) + u8_bytes(x.unknown_x0b) + u32_bytes(x.unknown_x0c, o));
        assert(x.wire(o).subrange(14, 18) == u32_bytes(x.unknown_x10, o));
        lemma_concat_split(u16_bytes(x.unknown_x02, o) + u16_bytes(x.unknown_x04, o) + u16_bytes(x.unknown_x06, o) + u16_bytes(x.unknown_x08, o) + u8_bytes(x.unknown_x0a) + u8_bytes(x.unknown_x0b), u32_bytes(x.unknown_x0c, o));
        lemma_subrange_of_subrange(x.wire(o), 0, 14, 0, 10);
        lemma_subrange_of_subrange(x.wire(o), 0, 14, 10, 14);
        assert(x.wire(o).subrange(0, 10) == u16_bytes(x.unknown_x02, o) + u16_bytes(x.unknown_x04, o) + u16_bytes(x.unknown_x06, o) + u16_bytes(x.unknown_x08, o) + u8_bytes(x.unknown_x0a) + u8_bytes(x.unknown_x0b));
        assert(x.wire(o).subrange(10, 14) == u32_bytes(x.unknown_x0c, o));
        lemma_concat_split(u16_bytes(x.unknown_x02, o) + u16_bytes(x.unknown_x04, o) + u16_bytes(x.unknown_x06, o) + u16_bytes(x.unknown_x08, o) + u8_bytes(x.unknown_x0a), u8_bytes(x.unknown_x0b));
        lemma_subrange_of_subrange(x.wire(o), 0, 10, 0, 9);
        lemma_subrange_of_subrange(x.wire(o), 0, 10, 9, 10);
        assert(x.wire(o).subrange(0, 9) == u16_bytes(x.unknown_x02, o) + u16_bytes(x.unknown_x04, o) + u16_bytes(x.unknown_x06, o) + u16_bytes(x.unknown_x08, o) + u8_bytes(x.unknown_x0a));
        assert(x.wire(o).subrange(9, 10) == u8_bytes(x.unknown_x0b));
        lemma_concat_split(u16_bytes(x.unknown_x02, o) + u16_bytes(x.unknown_x04, o) + u16_bytes(x.unknown_x06, o) + u16_bytes(x.unknown_x08, o), u8_bytes(x.unknown_x0a));
        lemma_subrange_of_subrange(x.wire(o), 0, 9, 0, 8);
        lemma_subrange_of_subrange(x.wire(o), 0, 9, 8, 9);
        assert(x.wire(o).subrange(0, 8) == u16_bytes(x.unknown_x02, o) + u16_bytes(x.unknown_x04, o) + u16_bytes(x.unknown_x06, o) + u16_bytes(x.unknown_x08, o));
        assert(x.wire(o).subrange(8, 9) == u8_bytes(x.unknown_x0a));
        lemma_concat_split(u16_bytes(x.unknown_x02, o) + u16_bytes(x.unknown_x04, o) + u16_bytes(x.unknown_x06, o), u16_bytes(x.unknown_x08, o));
        lemma_subrange_of_subrange(x.wire(o), 0, 8, 0, 6);
        lemma_subrange_of_subrange(x.wire(o), 0, 8, 6, 8);
        assert(x.wire(o).subrange(0, 6) == u16_bytes(x.unknown_x02, o) + u16_bytes(x.unknown_x04, o) + u16_bytes(x.unknown_x06, o));
        assert(x.wire(o).subrange(6, 8) == u16_bytes(x.unknown_x08, o));
        lemma_concat_split(u16_bytes(x.unknown_x02, o) + u16_bytes(x.unknown_x04, o), u16_bytes(x.unknown_x06, o));
        lemma_subrange_of_subrange(x.wire(o), 0, 6, 0, 4);
        lemma_subrange_of_subrange(x.wire(o), 0, 6, 4, 6);
        assert(x.wire(o).subrange(0, 4) == u16_bytes(x.unknown_x02, o) + u16_bytes(x.unknown_x04, o));
        assert(x.wire(o).subrange(4, 6) == u16_bytes(x.unknown_x06, o));
        lemma_concat_split(u16_bytes(x.unknown_x02, o), u16_bytes(x.unknown_x04, o));
        lemma_subrange_of_subrange(x.wire(o), 0, 4, 0, 2);
        lemma_subrange_of_subrange(x.wire(o), 0, 4, 2, 4);
        assert(x.wire(o).subrange(0, 2) == u16_bytes(x.unknown_x02, o));
        assert(x.wire(o).subrange(2, 4) == u16_bytes(x.unknown_x04, o));
        lemma_subrange_of_subrange(data, i, i + 35, 0, 2);
        assert(data.subrange(i, i + 2) == u16_bytes(x.unknown_x02, o));
        lemma_u16_at_of_bytes(data, i, x.unknown_x02, o);
        lemma_subrange_of_subrange(data, i, i + 35, 2, 4);
        assert(data.subrange(i + 2, i + 4) == u16_bytes(x.unknown_x04, o));
        lemma_u16_at_of_bytes(data, i + 2, x.unknown_x04, o);
        lemma_subrange_of_subrange(data, i, i + 35, 4, 6);
        assert(data.subrange(i + 4, i + 6) == u16_bytes(x.unknown_x06, o));
        lemma_u16_at_of_bytes(data, i + 4, x.unknown_x06, o);
        lemma_subrange_of_subrange(data, i, i + 35, 6, 8);
        assert(data.subrange(i + 6, i + 8) == u16_bytes(x.unknown_x08, o));
        lemma_u16_at_of_bytes(data, i + 6, x.unknown_x08, o);
        lemma_subrange_of_subrange(data, i, i + 35, 8, 9);
        assert(data.subrange(i + 8, i + 9) == u8_bytes(x.unknown_x0a));
        lemma_u8_at_of_bytes(data, i + 8, x.unknown_x0a);
        lemma_subrange_of_subrange(data, i, i + 35, 9, 10);
        assert(data.subrange(i + 9, i + 10) == u8_bytes(x.unknown_x0b));
        lemma_u8_at_of_bytes(data, i + 9, x.unknown_x0b);
        lemma_subrange_of_subrange(data, i, i + 35, 10, 14);
        assert(data.subrange(i + 10, i + 14) == u32_bytes(x.unknown_x0c, o));
        lemma_u32_at_of_bytes(data, i + 10, x.unknown_x0c, o);
        lemma_subrange_of_subrange(data, i, i + 35, 14, 18);
        assert(data.subrange(i + 14, i + 18) == u32_bytes(x.unknown_x10, o));
        lemma_u32_at_of_bytes(data, i + 14, x.unknown_x10, o);
        lemma_subrange_of_subrange(data, i, i + 35, 18, 22);
        assert(data.subrange(i + 18, i + 22) == u32_bytes(x.unknown_x14, o));
        lemma_u32_at_of_bytes(data, i + 18, x.unknown_x14, o);
        lemma_subrange_of_subrange(data, i, i + 35, 22, 26);
        assert(data.subrange(i + 22, i + 26) == u32_bytes(x.unknown_x18, o));
        lemma_u32_at_of_bytes(data, i + 22, x.unknown_x18, o);
        lemma_subrange_of_subrange(data, i, i + 35, 26, 30);
        assert(data.subrange(i + 26, i + 30) == u32_bytes(x.unknown_x1c, o));
        lemma_u32_at_of_bytes(data, i + 26, x.unknown_x1c, o);
        lemma_subrange_of_subrange(data, i, i + 35, 30, 34);
        assert(data.subrange(i + 30, i + 34) == u32_bytes(x.unknown_x20, o));
        lemma_u32_at_of_bytes(data, i + 30, x.unknown_x20, o);
        lemma_subrange_of_subrange(data, i, i + 35, 34, 35);
        assert(data.subrange(i + 34, i + 35) == u8_bytes(x.unknown_x24));
        lemma_u8_at_of_bytes(data, i + 34, x.unknown_x24);
    }

    /// Decode the header fields at `*pos`; the caller has checked that all
    /// 35 bytes are there.
    #[verifier::rlimit(60)]
    pub fn read(data: &Vec<u8>, pos: &mut usize, o: ByteOrder) -> (h: GroupHeader)
        requires
            *old(pos) + 35 <= data@.len(),
        ensures
            *final(pos) == *old(pos) + 35,
            h == GroupHeader::decoded_at(data@, *old(pos) as int, o),
            h.wire(o) == data@.subrange(*old(pos) as int, *old(pos) + 35),
    {
        let unknown_x02 = take_u16(data, pos, o);
        let unknown_x04 = take_u16(data, pos, o);
        let unknown_x06 = take_u16(data, pos, o);
        let unknown_x08 = take_u16(data, pos, o);
        let unknown_x0a = take_u8(data, pos);
        let unknown_x0b = take_u8(data, pos);
        let unknown_x0c = take_u32(data, pos, o);
        let unknown_x10 = take_u32(data, pos, o);
        let unknown_x14 = take_u32(data, pos, o);
        let unknown_x18 = take_u32(data, pos, o);
        let unknown_x1c = take_u32(data, pos, o);
        let unknown_x20 = take_u32(data, pos, o);
        let unknown_x24 = take_u8(data, pos);
        let h = GroupHeader {
            unknown_x02,
            unknown_x04,
            unknown_x06,
            unknown_x08,
            unknown_x0a,
            unknown_x0b,
            unknown_x0c,
            unknown_x10,
            unknown_x14,
            unknown_x18,
            unknown_x1c,
            unknown_x20,
            unknown_x24,
        };
        proof {
            let i = *old(pos) as int;
            lemma_concat_subrange(data@, i, i + 2, i + 4);
            lemma_concat_subrange(data@, i, i + 4, i + 6);
            lemma_concat_subrange(data@, i, i + 6, i + 8);
            lemma_concat_subrange(data@, i, i + 8, i + 9);
            lemma_concat_subrange(data@, i, i + 9, i + 10);
            lemma_concat_subrange(data@, i, i + 10, i + 14);
            lemma_concat_subrange(data@, i, i + 14, i + 18);
            lemma_concat_subrange(data@, i, i + 18, i + 22);
            lemma_concat_subrange(data@, i, i + 22, i + 26);
            lemma_concat_subrange(data@, i, i + 26, i + 30);
            lemma_concat_subrange(data@, i, i + 30, i + 34);
            lemma_concat_subrange(data@, i, i + 34, i + 35);
            assert(h.wire(o) == data@.subrange(i, i + 35));
        }
        h
    }

    /// Encode the header fields, appending their 35 wire bytes to `out`.
    #[verifier::rlimit(60)]
    pub fn write(&self, out: &mut Vec<u8>, o: ByteOrder)
        ensures
            final(out)@ == old(out)@ + self.wire(o),
    {
        put_u16(out, self.unknown_x02, o);
        put_u16(out, self.unknown_x04, o);
        put_u16(out, self.unknown_x06, o);
        put_u16(out, self.unknown_x08, o);
        put_u8(out, self.unknown_x0a);
        put_u8(out, self.unknown_x0b);
        put_u32(out, self.unknown_x0c, o);
        put_u32(out, self.unknown_x10, o);
        put_u32(out, self.unknown_x14, o);
        put_u32(out, self.unknown_x18, o);
        put_u32(out, self.unknown_x1c, o);
        put_u32(out, self.unknown_x20, o);
        put_u8(out, self.unknown_x24);
        proof {
            assert(out@ =~= old(out)@ + self.wire(o));
        }
    }
}

/// The wire bytes of a run of effect records, one after the other.
pub open spec fn effects_wire(es: Seq<Effect>, o: ByteOrder) -> Seq<u8>
    decreases es.len(),
{
    if es.len() == 0 {
        Seq::empty()
    } else {
        effects_wire(es.drop_last(), o) + es.last().wire(o)
    }
}

/// A run of effect records occupies 300 bytes per record.
pub proof fn lemma_effects_wire_len(es: Seq<Effect>, o: ByteOrder)
    ensures
        effects_wire(es, o).len() == 300 * es.len(),
    decreases es.len(),
{
    if es.len() > 0 {
        es.last().lemma_wire_len(o);
        lemma_effects_wire_len(es.drop_last(), o);
    }
}

/// One effect group: the reserved header and the effects it owns.
#[derive(Clone, PartialEq, Eq, Debug)]
pub struct EffectGroup {
    pub header: GroupHeader,
    pub effects: Vec<Effect>,
}

/// The mathematical value of an effect group: its header and the sequence
/// of its effects.
#[verifier::ext_equal]
pub struct EffectGroupView {
    pub header: GroupHeader,
    pub effects: Seq<Effect>,
}

impl View for EffectGroup {
    type V = EffectGroupView;

    open spec fn view(&self) -> EffectGroupView {
        EffectGroupView { header: self.header, effects: self.effects@ }
    }
}

impl EffectGroupView {
    /// The wire bytes of this group in byte order `o`: the effect count,
    /// the header fields, the zero-filled eleven-byte reserved gap, then the
    /// effects. Meaningful when the count fits a `u16`.
    pub open spec fn wire(self, o: ByteOrder) -> Seq<u8> {
        u16_bytes(self.effects.len() as u16, o) + self.header.wire(o) + zero_bytes(11)
            + effects_wire(self.effects, o)
    }

    /// A group occupies 48 bytes of count, header and gap, plus 300 per
    /// effect.
    pub proof fn lemma_wire_len(self, o: ByteOrder)
        ensures
            self.wire(o).len() == 48 + 300 * self.effects.len(),
    {
        lemma_effects_wire_len(self.effects, o);
    }
}

impl EffectGroup {
    /// Decode one group at `*pos`. The decoder reads the 37 header bytes,
    /// skips the eleven-byte reserved gap without reading its contents, and
    /// then reads the announced effects; the gap belongs to the record, so
    /// the cursor always advances by `48 + 300 * n` bytes. `None` exactly
    /// when the header, the gap, or any announced effect lies beyond the end
    /// of the buffer; `*pos` is then unchanged.
    #[verifier::rlimit(100)]
    pub fn new(data: &Vec<u8>, pos: &mut usize, o: ByteOrder) -> (r: Option<EffectGroup>)
        ensures
            match r {
                Some(g) => {
                    let p = *old(pos) as int;
                    let n = u16_at(data@, p, o) as int;
                    &&& p + 37 <= data@.len()
                    &&& p + 48 + 300 * n <= data@.len()
                    &&& *final(pos) == p + 48 + 300 * n
                    &&& g.header == GroupHeader::decoded_at(data@, p + 2, o)
                    &&& g.effects@.len() == n
                    &&& forall|k: int|
                        0 <= k < n ==> g.effects@[k] == Effect::decoded_at(
                            data@,
                            p + 48 + 300 * k,
                            o,
                        )
                    &&& u16_bytes(n as u16, o) + g.header.wire(o) == data@.subrange(p, p + 37)
                    &&& effects_wire(g.effects@, o) == data@.subrange(p + 48, p + 48 + 300 * n)
                }
                None => {
                    let p = *old(pos) as int;
                    let n = u16_at(data@, p, o) as int;
                    &&& *final(pos) == p
                    &&& (p + 37 > data@.len() || p + 48 + 300 * n > data@.len())
                }
            },
    {
        let start: usize = *pos;
        let dlen: usize = data.len();
        if dlen < 37 || start > dlen - 37 {
            return None;
        }
        let count = take_u16(data, pos, o);
        let header = GroupHeader::read(data, pos, o);
        proof {
            lemma_concat_subrange(data@, start as int, start + 2, start + 37);
        }
        // The gap and the effects, in 64-bit arithmetic so the bound cannot
        // overflow: 11 + 300 * count stays far below 2^64.
        if 11 + (count as u64) * 300 > (dlen as u64) - (*pos as u64) {
            *pos = start;
            return None;
        }
        *pos = *pos + 11;
        let ghost base = *pos as int;
        let mut effects: Vec<Effect> = Vec::new();
        let mut j: usize = 0;
        while j < count as usize
            invariant
                0 <= j <= count,
                base == start + 48,
                start + 48 + 300 * (count as int) <= data@.len(),
                *pos == base + 300 * j,
                effects@.len() == j,
                forall|k: int|
                    0 <= k < j ==> effects@[k] == Effect::decoded_at(data@, base + 300 * k, o),
                effects_wire(effects@, o) == data@.subrange(base, base + 300 * j),
            decreases count as int - j,
        {
            let e = Effect::read(data, pos, o);
            let ghost pre = effects@;
            effects.push(e);
            j = j + 1;
            proof {
                assert(effects@.drop_last() =~= pre);
                lemma_concat_subrange(data@, base, base + 300 * (j - 1), base + 300 * j);
                assert(effects_wire(effects@, o) == data@.subrange(base, base + 300 * j));
            }
        }
        Some(EffectGroup { header, effects })
    }

    /// Encode this group, appending the count, the header, eleven zero gap
    /// bytes and the effects to `out`. Fails with `CastFailure`, leaving
    /// `out` unchanged, exactly when the effect count does not fit the
    /// 16-bit count field.
    pub fn write(&self, out: &mut Vec<u8>, o: ByteOrder) -> (r: Result<(), EffError>)
        ensures
            match r {
                Ok(()) => {
                    &&& self.effects@.len() <= u16::MAX
                    &&& final(out)@ == old(out)@ + self@.wire(o)
                }
                Err(e) => {
                    &&& self.effects@.len() > u16::MAX
                    &&& e == EffError::CastFailure
                    &&& final(out)@ == old(out)@
                }
            },
    {
        let n: usize = self.effects.len();
        if (n as u64) > (u16::MAX as u64) {
            return Err(EffError::CastFailure);
        }
        put_u16(out, n as u16, o);
        self.header.write(out, o);
        let ghost before_gap = out@;
        let mut z: usize = 0;
        while z < 11
            invariant
                0 <= z <= 11,
                out@ == before_gap + zero_bytes(z as int),
            decreases 11 - z,
        {
            out.push(0u8);
            z = z + 1;
            proof {
                assert(out@ =~= before_gap + zero_bytes(z as int));
            }
        }
        let ghost mark = out@;
        let mut j: usize = 0;
        while j < n
            invariant
                0 <= j <= n,
                n == self.effects@.len(),
                out@ == mark + effects_wire(self.effects@.take(j as int), o),
            decreases n - j,
        {
            let _ = self.effects[j].write(out, o);
            j = j + 1;
            proof {
                assert(self.effects@.take(j as int).drop_last() =~= self.effects@.take(j - 1));
                assert(out@ == mark + effects_wire(self.effects@.take(j as int), o));
            }
        }
        proof {
            assert(self.effects@.take(n as int) =~= self.effects@);
            assert(out@ =~= old(out)@ + self@.wire(o));
        }
        Ok(())
    }
}

impl Default for GroupHeader {
    /// The all-zero header.
    fn default() -> (r: GroupHeader)
        ensures
            r == (GroupHeader {
                unknown_x02: 0,
                unknown_x04: 0,
                unknown_x06: 0,
                unknown_x08: 0,
                unknown_x0a: 0,
                unknown_x0b: 0,
                unknown_x0c: 0,
                unknown_x10: 0,
                unknown_x14: 0,
                unknown_x18: 0,
                unknown_x1c: 0,
                unknown_x20: 0,
                unknown_x24: 0,
            }),
    {
        GroupHeader {
                unknown_x02: 0,
                unknown_x04: 0,
                unknown_x06: 0,
                unknown_x08: 0,
                unknown_x0a: 0,
                unknown_x0b: 0,
                unknown_x0c: 0,
                unknown_x10: 0,
                unknown_x14: 0,
                unknown_x18: 0,
                unknown_x1c: 0,
                unknown_x20: 0,
                unknown_x24: 0,
        }
    }
}

} // verus!
