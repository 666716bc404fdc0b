//! Fixed-layout records of the container: the plain id-table entry, the
//! ear-link record, and the texture-metadata record. Each decodes and encodes
//! its scalar fields in a fixed, format-defined order with no branching on
//! field values; reserved fields are carried verbatim.

use vstd::prelude::*;

use crate::ByteOrder;
use crate::EffError;
use crate::scalar::{
    lemma_concat_split, lemma_subrange_of_subrange, lemma_u16_at_of_bytes,
    lemma_u32_at_of_bytes, lemma_u8_at_of_bytes, put_u16, put_u32, put_u8, take_u16, take_u32,
    take_u8, u16_at, u16_bytes, u32_at, u32_bytes, u8_bytes,
};

verus! {

/// One entry of a plain id table: a 32-bit id plus a reserved 32-bit field
/// that must survive a binary round trip unchanged.
#[derive(Clone, Copy, PartialEq, Eq, Structural, Debug)]
pub struct TableEntry {
    pub id: u32,
    pub unknown: u32,
}

impl TableEntry {
    /// The eight wire bytes of this entry in byte order `o`.
    pub open spec fn wire(self, o: ByteOrder) -> Seq<u8> {
        u32_bytes(self.id, o) + u32_bytes(self.unknown, o)
    }

    /// The entry stored at byte position `i` of `data` in byte order `o`.
    pub open spec fn decoded_at(data: Seq<u8>, i: int, o: ByteOrder) -> TableEntry {
        TableEntry { id: u32_at(data, i, o), unknown: u32_at(data, i + 4, o) }
    }

    /// Decoding any window of `data` that holds this record's wire bytes
    /// yields the record back: the codec loses nothing.
    pub proof fn lemma_decoded_of_wire(data: Seq<u8>, i: int, x: TableEntry, o: ByteOrder)
        requires
            0 <= i,
            i + 8 <= data.len(),
            data.subrange(i, i + 8) == x.wire(o),
        ensures
            TableEntry::decoded_at(data, i, o) == x,
    {
        assert(u32_bytes(x.id, o).len() == 4);
        assert(u32_bytes(x.unknown, o).len() == 4);
        assert(x.wire(o).subrange(0, 8) =~= x.wire(o));
        lemma_concat_split(u32_bytes(x.id, o), u32_bytes(x.unknown, o));
        assert(x.wire(o).subrange(0, 4) == u32_bytes(x.id, o));
        assert(x.wire(o).subrange(4, 8) == u32_bytes(x.unknown, o));
        lemma_subrange_of_subrange(data, i, i + 8, 0, 4);
        assert(data.subrange(i, i + 4) == u32_bytes(x.id, o));
        lemma_u32_at_of_bytes(data, i, x.id, o);
        lemma_subrange_of_subrange(data, i, i + 8, 4, 8);
        assert(data.subrange(i + 4, i + 8) == u32_bytes(x.unknown, o));
        lemma_u32_at_of_bytes(data, i + 4, x.unknown, o);
    }

    /// Decode one entry at `*pos`; `None` exactly when fewer than eight bytes
    /// remain, in which case `*pos` is unchanged.
    pub fn new(data: &Vec<u8>, pos: &mut usize, o: ByteOrder) -> (r: Option<TableEntry>)
        ensures
            match r {
                Some(e) => {
                    &&& *old(pos) + 8 <= data@.len()
                    &&& *final(pos) == *old(pos) + 8
                    &&& e == TableEntry::decoded_at(data@, *old(pos) as int, o)
                    &&& e.wire(o) == data@.subrange(*old(pos) as int, *old(pos) + 8)
                }
                None => {
                    &&& *old(pos) + 8 > data@.len()
                    &&& *final(pos) == *old(pos)
                }
            },
    {
        if data.len() < 8 || *pos > data.len() - 8 {
            return None;
        }
        let id = take_u32(data, pos, o);
        let unknown = take_u32(data, pos, o);
        let e = TableEntry { id, unknown };
        proof {
            assert(e.wire(o) =~= data@.subrange(*old(pos) as int, *old(pos) + 8));
        }
        Some(e)
    }

    /// Encode this entry, appending its eight wire bytes to `out`. The error
    /// path exists only for interface symmetry: a same-width re-tag cannot
    /// fail, so the result is always `Ok`.
    pub fn write(&self, out: &mut Vec<u8>, o: ByteOrder) -> (r: Result<(), EffError>)
        ensures
            r is Ok,
            final(out)@ == old(out)@ + self.wire(o),
    {
        put_u32(out, self.id, o);
        put_u32(out, self.unknown, o);
        proof {
            assert(out@ =~= old(out)@ + self.wire(o));
        }
        Ok(())
    }
}

/// One ear-link record: a 16-bit id, a 16-bit linked id, and a reserved
/// 32-bit field carried verbatim.
#[derive(Clone, Copy, PartialEq, Eq, Structural, Debug)]
pub struct EarLink {
    pub id: u16,
    pub ear_link_id: u16,
    pub unknown: u32,
}

impl EarLink {
    /// The eight wire bytes of this record in byte order `o`.
    pub open spec fn wire(self, o: ByteOrder) -> Seq<u8> {
        u16_bytes(self.id, o) + u16_bytes(self.ear_link_id, o) + u32_bytes(self.unknown, o)
    }

    /// The record stored at byte position `i` of `data` in byte order `o`.
    pub open spec fn decoded_at(data: Seq<u8>, i: int, o: ByteOrder) -> EarLink {
        EarLink {
            id: u16_at(data, i, o),
            ear_link_id: u16_at(data, i + 2, o),
            unknown: u32_at(data, i + 4, o),
        }
    }

    /// Decoding any window of `data` that holds this record's wire bytes
    /// yields the record back: the codec loses nothing.
    pub proof fn lemma_decoded_of_wire(data: Seq<u8>, i: int, x: EarLink, o: ByteOrder)
        requires
            0 <= i,
            i + 8 <= data.len(),
            data.subrange(i, i + 8) == x.wire(o),
        ensures
            EarLink::decoded_at(data, i, o) == x,
    {
        assert(u16_bytes(x.id, o).len() == 2);
        assert(u16_bytes(x.ear_link_id, o).len() == 2);
        assert(u32_bytes(x.unknown, o).len() == 4);
        assert(x.wire(o).subrange(0, 8) =~= x.wire(o));
        lemma_concat_split(u16_bytes(x.id, o) + u16_bytes(x.ear_link_id, o), u32_bytes(x.unknown, o));
        assert(x.wire(o).subrange(0, 4) == u16_bytes(x.id, o) + u16_bytes(x.ear_link_id, o));
        assert(x.wire(o).subrange(4, 8) == u32_bytes(x.unknown, o));
        lemma_concat_split(u16_bytes(x.id, o), u16_bytes(x.ear_link_id, o));
        lemma_subrange_of_subrange(x.wire(o), 0, 4, 0, 2);
        lemma_subrange_of_subrange(x.wire(o), 0, 4, 2, 4);
        assert(x.wire(o).subrange(0, 2) == u16_bytes(x.id, o));
        assert(x.wire(o).subrange(2, 4) == u16_bytes(x.ear_link_id, o));
        lemma_subrange_of_subrange(data, i, i + 8, 0, 2);
        assert(data.subrange(i, i + 2) == u16_bytes(x.id, o));
        lemma_u16_at_of_bytes(data, i, x.id, o);
        lemma_subrange_of_subrange(data, i, i + 8, 2, 4);
        assert(data.subrange(i + 2, i + 4) == u16_bytes(x.ear_link_id, o));
        lemma_u16_at_of_bytes(data, i + 2, x.ear_link_id, o);
        lemma_subrange_of_subrange(data, i, i + 8, 4, 8);
        assert(data.subrange(i + 4, i + 8) == u32_bytes(x.unknown, o));
        lemma_u32_at_of_bytes(data, i + 4, x.unknown, o);
    }

    /// Decode one record at `*pos`; `None` exactly when fewer than eight
    /// bytes remain, in which case `*pos` is unchanged.
    pub fn new(data: &Vec<u8>, pos: &mut usize, o: ByteOrder) -> (r: Option<EarLink>)
        ensures
            match r {
                Some(e) => {
                    &&& *old(pos) + 8 <= data@.len()
                    &&& *final(pos) == *old(pos) + 8
                    &&& e == EarLink::decoded_at(data@, *old(pos) as int, o)
                    &&& e.wire(o) == data@.subrange(*old(pos) as int, *old(pos) + 8)
                }
                None => {
                    &&& *old(pos) + 8 > data@.len()
                    &&& *final(pos) == *old(pos)
                }
            },
    {
        if data.len() < 8 || *pos > data.len() - 8 {
            return None;
        }
        let id = take_u16(data, pos, o);
        let ear_link_id = take_u16(data, pos, o);
        let unknown = take_u32(data, pos, o);
        let e = EarLink { id, ear_link_id, unknown };
        proof {
            assert(e.wire(o) =~= data@.subrange(*old(pos) as int, *old(pos) + 8));
        }
        Some(e)
    }

    /// Encode this record, appending its eight wire bytes to `out`; always `Ok`.
    pub fn write(&self, out: &mut Vec<u8>, o: ByteOrder) -> (r: Result<(), EffError>)
        ensures
            r is Ok,
            final(out)@ == old(out)@ + self.wire(o),
    {
        put_u16(out, self.id, o);
        put_u16(out, self.ear_link_id, o);
        put_u32(out, self.unknown, o);
        proof {
            assert(out@ =~= old(out)@ + self.wire(o));
        }
        Ok(())
    }
}

/// The texture-metadata record: seven small integers describing one
/// texture's dimensions and per-effect layout; twelve wire bytes, no nested
/// offsets.
#[derive(Clone, Copy, PartialEq, Eq, Structural, Debug)]
pub struct TextureMetadata {
    pub texture_height: u16,
    pub texture_width: u16,
    pub effect_height: u16,
    pub effect_width: u16,
    pub texture_count: u16,
    pub unknown_1: u8,
    pub unknown_2: u8,
}

impl TextureMetadata {
    /// The twelve wire bytes of this record in byte order `o`.
    pub open spec fn wire(self, o: ByteOrder) -> Seq<u8> {
        u16_bytes(self.texture_height, o) + u16_bytes(self.texture_width, o)
            + u16_bytes(self.effect_height, o) + u16_bytes(self.effect_width, o)
            + u16_bytes(self.texture_count, o) + u8_bytes(self.unknown_1)
            + u8_bytes(self.unknown_2)
    }

    /// The record stored at byte position `i` of `data` in byte order `o`.
    pub open spec fn decoded_at(data: Seq<u8>, i: int, o: ByteOrder) -> TextureMetadata {
        TextureMetadata {
            texture_height: u16_at(data, i, o),
            texture_width: u16_at(data, i + 2, o),
            effect_height: u16_at(data, i + 4, o),
            effect_width: u16_at(data, i + 6, o),
            texture_count: u16_at(data, i + 8, o),
            unknown_1: data[i + 10],
            unknown_2: data[i + 11],
        }
    }

    /// Decoding any window of `data` that holds this record's wire bytes
    /// yields the record back: the codec loses nothing.
    pub proof fn lemma_decoded_of_wire(data: Seq<u8>, i: int, x: TextureMetadata, o: ByteOrder)
        requires
            0 <= i,
            i + 12 <= data.len(),
            data.subrange(i, i + 12) == x.wire(o),
        ensures
            TextureMetadata::decoded_at(data, i, o) == x,
    {
        assert(u16_bytes(x.texture_height, o).len() == 2);
        assert(u16_bytes(x.texture_width, o).len() == 2);
        assert(u16_bytes(x.effect_height, o).len() == 2);
        assert(u16_bytes(x.effect_width, o).len() == 2);
        assert(u16_bytes(x.texture_count, o).len() == 2);
        assert(u8_bytes(x.unknown_1).len() == 1);
        assert(u8_bytes(x.unknown_2).len() == 1);
        assert(x.wire(o).subrange(0, 12) =~= x.wire(o));
        lemma_concat_split(u16_bytes(x.texture_height, o) + u16_bytes(x.texture_width, o) + u16_bytes(x.effect_height, o) + u16_bytes(x.effect_width, o) + u16_bytes(x.texture_count, o) + u8_bytes(x.unknown_1), u8_bytes(x.unknown_2));
        assert(x.wire(o).subrange(0, 11) == u16_bytes(x.texture_height, o) + u16_bytes(x.texture_width, o) + u16_bytes(x.effect_height, o) + u16_bytes(x.effect_width, o) + u16_bytes(x.texture_count, o) + u8_bytes(x.unknown_1));
        assert(x.wire(o).subrange(11, 12) == u8_bytes(x.unknown_2));
        lemma_concat_split(u16_bytes(x.texture_height, o) + u16_bytes(x.texture_width, o) + u16_bytes(x.effect_height, o) + u16_bytes(x.effect_width, o) + u16_bytes(x.texture_count, o), u8_bytes(x.unknown_1));
        lemma_subrange_of_subrange(x.wire(o), 0, 11, 0, 10);
        lemma_subrange_of_subrange(x.wire(o), 0, 11, 10, 11);
        assert(x.wire(o).subrange(0, 10) == u16_bytes(x.texture_height, o) + u16_bytes(x.texture_width, o) + u16_bytes(x.effect_height, o) + u16_bytes(x.effect_width, o) + u16_bytes(x.texture_count, o));
        assert(x.wire(o).subrange(10, 11) == u8_bytes(x.unknown_1));
        lemma_concat_split(u16_bytes(x.texture_height, o) + u16_bytes(x.texture_width, o) + u16_bytes(x.effect_height, o) + u16_bytes(x.effect_width, o), u16_bytes(x.texture_count, o));
        lemma_subrange_of_subrange(x.wire(o), 0, 10, 0, 8);
        lemma_subrange_of_subrange(x.wire(o), 0, 10, 8, 10);
        assert(x.wire(o).subrange(0, 8) == u16_bytes(x.texture_height, o) + u16_bytes(x.texture_width, o) + u16_bytes(x.effect_height, o) + u16_bytes(x.effect_width, o));
        assert(x.wire(o).subrange(8, 10) == u16_bytes(x.texture_count, o));
        lemma_concat_split(u16_bytes(x.texture_height, o) + u16_bytes(x.texture_width, o) + u16_bytes(x.effect_height, o), u16_bytes(x.effect_width, o));
        lemma_subrange_of_subrange(x.wire(o), 0, 8, 0, 6);
        lemma_subrange_of_subrange(x.wire(o), 0, 8, 6, 8);
        assert(x.wire(o).subrange(0, 6) == u16_bytes(x.texture_height, o) + u16_bytes(x.texture_width, o) + u16_bytes(x.effect_height, o));
        assert(x.wire(o).subrange(6, 8) == u16_bytes(x.effect_width, o));
        lemma_concat_split(u16_bytes(x.texture_height, o) + u16_bytes(x.texture_width, o), u16_bytes(x.effect_height, o));
        lemma_subrange_of_subrange(x.wire(o), 0, 6, 0, 4);
        lemma_subrange_of_subrange(x.wire(o), 0, 6, 4, 6);
        assert(x.wire(o).subrange(0, 4) == u16_bytes(x.texture_height, o) + u16_bytes(x.texture_width, o));
        assert(x.wire(o).subrange(4, 6) == u16_bytes(x.effect_height, o));
        lemma_concat_split(u16_bytes(x.texture_height, o), u16_bytes(x.texture_width, o));
        lemma_subrange_of_subrange(x.wire(o), 0, 4, 0, 2);
        lemma_subrange_of_subrange(x.wire(o), 0, 4, 2, 4);
        assert(x.wire(o).subrange(0, 2) == u16_bytes(x.texture_height, o));
        assert(x.wire(o).subrange(2, 4) == u16_bytes(x.texture_width, o));
        lemma_subrange_of_subrange(data, i, i + 12, 0, 2);
        assert(data.subrange(i, i + 2) == u16_bytes(x.texture_height, o));
        lemma_u16_at_of_bytes(data, i, x.texture_height, o);
        lemma_subrange_of_subrange(data, i, i + 12, 2, 4);
        assert(data.subrange(i + 2, i + 4) == u16_bytes(x.texture_width, o));
        lemma_u16_at_of_bytes(data, i + 2, x.texture_width, o);
        lemma_subrange_of_subrange(data, i, i + 12, 4, 6);
        assert(data.subrange(i + 4, i + 6) == u16_bytes(x.effect_height, o));
        lemma_u16_at_of_bytes(data, i + 4, x.effect_height, o);
        lemma_subrange_of_subrange(data, i, i + 12, 6, 8);
        assert(data.subrange(i + 6, i + 8) == u16_bytes(x.effect_width, o));
        lemma_u16_at_of_bytes(data, i + 6, x.effect_width, o);
        lemma_subrange_of_subrange(data, i, i + 12, 8, 10);
        assert(data.subrange(i + 8, i + 10) == u16_bytes(x.texture_count, o));
        lemma_u16_at_of_bytes(data, i + 8, x.texture_count, o);
        lemma_subrange_of_subrange(data, i, i + 12, 10, 11);
        assert(data.subrange(i + 10, i + 11) == u8_bytes(x.unknown_1));
        lemma_u8_at_of_bytes(data, i + 10, x.unknown_1);
        lemma_subrange_of_subrange(data, i, i + 12, 11, 12);
        assert(data.subrange(i + 11, i + 12) == u8_bytes(x.unknown_2));
        lemma_u8_at_of_bytes(data, i + 11, x.unknown_2);
    }

    /// Decode one record at `*pos`; `None` exactly when fewer than twelve
    /// bytes remain, in which case `*pos` is unchanged.
    pub fn new(data: &Vec<u8>, pos: &mut usize, o: ByteOrder) -> (r: Option<TextureMetadata>)
        ensures
            match r {
                Some(e) => {
                    &&& *old(pos) + 12 <= data@.len()
                    &&& *final(pos) == *old(pos) + 12
                    &&& e == TextureMetadata::decoded_at(data@, *old(pos) as int, o)
                    &&& e.wire(o) == data@.subrange(*old(pos) as int, *old(pos) + 12)
                }
                None => {
                    &&& *old(pos) + 12 > data@.len()
                    &&& *final(pos) == *old(pos)
                }
            },
    {
        if data.len() < 12 || *pos > data.len() - 12 {
            return None;
        }
        let texture_height = take_u16(data, pos, o);
        let texture_width = take_u16(data, pos, o);
        let effect_height = take_u16(data, pos, o);
        let effect_width = take_u16(data, pos, o);
        let texture_count = take_u16(data, pos, o);
        let unknown_1 = take_u8(data, pos);
        let unknown_2 = take_u8(data, pos);
        let e = TextureMetadata {
            texture_height,
            texture_width,
            effect_height,
            effect_width,
            texture_count,
            unknown_1,
            unknown_2,
        };
        proof {
            assert(e.wire(o) =~= data@.subrange(*old(pos) as int, *old(pos) + 12));
        }
        Some(e)
    }

    /// Encode this record, appending its twelve wire bytes to `out`; always `Ok`.
    pub fn write(&self, out: &mut Vec<u8>, o: ByteOrder) -> (r: Result<(), EffError>)
        ensures
            r is Ok,
            final(out)@ == old(out)@ + self.wire(o),
    {
        put_u16(out, self.texture_height, o);
        put_u16(out, self.texture_width, o);
        put_u16(out, self.effect_height, o);
        put_u16(out, self.effect_width, o);
        put_u16(out, self.texture_count, o);
        put_u8(out, self.unknown_1);
        put_u8(out, self.unknown_2);
        proof {
            assert(out@ =~= old(out)@ + self.wire(o));
        }
        Ok(())
    }
}

/// The wire bytes of a run of id-table entries, one after the other.
pub open spec fn id_entries_wire(es: Seq<TableEntry>, o: ByteOrder) -> Seq<u8>
    decreases es.len(),
{
    if es.len() == 0 {
        Seq::empty()
    } else {
        id_entries_wire(es.drop_last(), o) + es.last().wire(o)
    }
}


/// A run of id-table entries occupies eight bytes per entry.
pub proof fn lemma_id_entries_wire_len(es: Seq<TableEntry>, o: ByteOrder)
    ensures
        id_entries_wire(es, o).len() == 8 * es.len(),
    decreases es.len(),
{
    if es.len() > 0 {
        lemma_id_entries_wire_len(es.drop_last(), o);
    }
}

/// The wire bytes of a run of ear-link records, one after the other.
pub open spec fn ear_entries_wire(es: Seq<EarLink>, o: ByteOrder) -> Seq<u8>
    decreases es.len(),
{
    if es.len() == 0 {
        Seq::empty()
    } else {
        ear_entries_wire(es.drop_last(), o) + es.last().wire(o)
    }
}


/// A run of ear-link records occupies eight bytes per record.
pub proof fn lemma_ear_entries_wire_len(es: Seq<EarLink>, o: ByteOrder)
    ensures
        ear_entries_wire(es, o).len() == 8 * es.len(),
    decreases es.len(),
{
    if es.len() > 0 {
        lemma_ear_entries_wire_len(es.drop_last(), o);
    }
}

} // verus!
