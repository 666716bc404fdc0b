//! The effect record: the largest fixed-layout record of the container,
//! three hundred wire bytes of scalar fields with no internal offsets and no
//! branching on field values. The flat wire layout is factored into six
//! cohesive field groups that are always encoded contiguously in fixed
//! order; every field, reserved ones included, round-trips verbatim. Fields
//! that are IEEE-754 floats on the wire are carried as `u32` bit patterns.

use vstd::prelude::*;

use crate::ByteOrder;
use crate::EffError;
use crate::scalar::{
    lemma_concat_split, lemma_concat_subrange, lemma_subrange_of_subrange,
    lemma_u16_at_of_bytes, lemma_u32_at_of_bytes, lemma_u8_at_of_bytes, put_u16, put_u32,
    put_u8, take_u16, take_u32, take_u8, u16_at, u16_bytes, u32_at, u32_bytes, u8_bytes,
};

verus! {

/// Identity and timing: which state, sprite and texture the effect
/// uses, its delay, parent linkage and flag word.
#[derive(Clone, Copy, PartialEq, Eq, Debug)]
pub struct EffectIdent {
    pub state_id: u8,
    pub esp_id: u8,
    pub texture_id: u8,
    pub unknown_x03: u8,
    pub time: u16,
    pub parent: u8,
    pub part: u8,
    pub flags: u32,
}

impl EffectIdent {
    /// The 12 wire bytes of this group in byte order `o`.
    pub open spec fn wire(self, o: ByteOrder) -> Seq<u8> {
        u8_bytes(self.state_id) + u8_bytes(self.esp_id) + u8_bytes(self.texture_id)
            + u8_bytes(self.unknown_x03) + u16_bytes(self.time, o) + u8_bytes(self.parent)
            + u8_bytes(self.part) + u32_bytes(self.flags, o)
    }

    /// This group always occupies 12 wire bytes.
    pub proof fn lemma_wire_len(self, o: ByteOrder)
        ensures
            self.wire(o).len() == 12,
    {
    }

    /// The group stored at byte position `i` of `data` in byte order `o`.
    pub open spec fn decoded_at(data: Seq<u8>, i: int, o: ByteOrder) -> EffectIdent {
        EffectIdent {
            state_id: data[i],
            esp_id: data[i + 1],
            texture_id: data[i + 2],
            unknown_x03: data[i + 3],
            time: u16_at(data, i + 4, o),
            parent: data[i + 6],
            part: data[i + 7],
            flags: u32_at(data, i + 8, o),
        }
    }

    /// Decoding any window of `data` that holds this record's wire bytes
    /// yields the record back: the codec loses nothing.
    #[verifier::rlimit(100)]
    pub proof fn lemma_decoded_of_wire(data: Seq<u8>, i: int, x: EffectIdent, o: ByteOrder)
        requires
            0 <= i,
            i + 12 <= data.len(),
            data.subrange(i, i + 12) == x.wire(o),
        ensures
            EffectIdent::decoded_at(data, i, o) == x,
    {
        assert(u8_bytes(x.state_id).len() == 1);
        assert(u8_bytes(x.esp_id).len() == 1);
        assert(u8_bytes(x.texture_id).len() == 1);
        assert(u8_bytes(x.unknown_x03).len() == 1);
        assert(u16_bytes(x.time, o).len() == 2);
        assert(u8_bytes(x.parent).len() == 1);
        assert(u8_bytes(x.part).len() == 1);
        assert(u32_bytes(x.flags, o).len() == 4);
        assert(x.wire(o).subrange(0, 12) =~= x.wire(o));
        lemma_concat_split(u8_bytes(x.state_id) + u8_bytes(x.esp_id) + u8_bytes(x.texture_id) + u8_bytes(x.unknown_x03) + u16_bytes(x.time, o) + u8_bytes(x.parent) + u8_bytes(x.part), u32_bytes(x.flags, o));
        assert(x.wire(o).subrange(0, 8) == u8_bytes(x.state_id) + u8_bytes(x.esp_id) + u8_bytes(x.texture_id) + u8_bytes(x.unknown_x03) + u16_bytes(x.time, o) + u8_bytes(x.parent) + u8_bytes(x.part));
        assert(x.wire(o).subrange(8, 12) == u32_bytes(x.flags, o));
        lemma_concat_split(u8_bytes(x.state_id) + u8_bytes(x.esp_id) + u8_bytes(x.texture_id) + u8_bytes(x.unknown_x03) + u16_bytes(x.time, o) + u8_bytes(x.parent), u8_bytes(x.part));
        lemma_subrange_of_subrange(x.wire(o), 0, 8, 0, 7);
        lemma_subrange_of_subrange(x.wire(o), 0, 8, 7, 8);
        assert(x.wire(o).subrange(0, 7) == u8_bytes(x.state_id) + u8_bytes(x.esp_id) + u8_bytes(x.texture_id) + u8_bytes(x.unknown_x03) + u16_bytes(x.time, o) + u8_bytes(x.parent));
        assert(x.wire(o).subrange(7, 8) == u8_bytes(x.part));
        lemma_concat_split(u8_bytes(x.state_id) + u8_bytes(x.esp_id) + u8_bytes(x.texture_id) + u8_bytes(x.unknown_x03) + u16_bytes(x.time, o), u8_bytes(x.parent));
        lemma_subrange_of_subrange(x.wire(o), 0, 7, 0, 6);
        lemma_subrange_of_subrange(x.wire(o), 0, 7, 6, 7);
        assert(x.wire(o).subrange(0, 6) == u8_bytes(x.state_id) + u8_bytes(x.esp_id) + u8_bytes(x.texture_id) + u8_bytes(x.unknown_x03) + u16_bytes(x.time, o));
        assert(x.wire(o).subrange(6, 7) == u8_bytes(x.parent));
        lemma_concat_split(u8_bytes(x.state_id) + u8_bytes(x.esp_id) + u8_bytes(x.texture_id) + u8_bytes(x.unknown_x03), u16_bytes(x.time, o));
        lemma_subrange_of_subrange(x.wire(o), 0, 6, 0, 4);
        lemma_subrange_of_subrange(x.wire(o), 0, 6, 4, 6);
        assert(x.wire(o).subrange(0, 4) == u8_bytes(x.state_id) + u8_bytes(x.esp_id) + u8_bytes(x.texture_id) + u8_bytes(x.unknown_x03));
        assert(x.wire(o).subrange(4, 6) == u16_bytes(x.time, o));
        lemma_concat_split(u8_bytes(x.state_id) + u8_bytes(x.esp_id) + u8_bytes(x.texture_id), u8_bytes(x.unknown_x03));
        lemma_subrange_of_subrange(x.wire(o), 0, 4, 0, 3);
        lemma_subrange_of_subrange(x.wire(o), 0, 4, 3, 4);
        assert(x.wire(o).subrange(0, 3) == u8_bytes(x.state_id) + u8_bytes(x.esp_id) + u8_bytes(x.texture_id));
        assert(x.wire(o).subrange(3, 4) == u8_bytes(x.unknown_x03));
        lemma_concat_split(u8_bytes(x.state_id) + u8_bytes(x.esp_id), u8_bytes(x.texture_id));
        lemma_subrange_of_subrange(x.wire(o), 0, 3, 0, 2);
        lemma_subrange_of_subrange(x.wire(o), 0, 3, 2, 3);
        assert(x.wire(o).subrange(0, 2) == u8_bytes(x.state_id) + u8_bytes(x.esp_id));
        assert(x.wire(o).subrange(2, 3) == u8_bytes(x.texture_id));
        lemma_concat_split(u8_bytes(x.state_id), u8_bytes(x.esp_id));
        lemma_subrange_of_subrange(x.wire(o), 0, 2, 0, 1);
        lemma_subrange_of_subrange(x.wire(o), 0, 2, 1, 2);
        assert(x.wire(o).subrange(0, 1) == u8_bytes(x.state_id));
        assert(x.wire(o).subrange(1, 2) == u8_bytes(x.esp_id));
        lemma_subrange_of_subrange(data, i, i + 12, 0, 1);
        assert(data.subrange(i, i + 1) == u8_bytes(x.state_id));
        lemma_u8_at_of_bytes(data, i, x.state_id);
        lemma_subrange_of_subrange(data, i, i + 12, 1, 2);
        assert(data.subrange(i + 1, i + 2) == u8_bytes(x.esp_id));
        lemma_u8_at_of_bytes(data, i + 1, x.esp_id);
        lemma_subrange_of_subrange(data, i, i + 12, 2, 3);
        assert(data.subrange(i + 2, i + 3) == u8_bytes(x.texture_id));
        lemma_u8_at_of_bytes(data, i + 2, x.texture_id);
        lemma_subrange_of_subrange(data, i, i + 12, 3, 4);
        assert(data.subrange(i + 3, i + 4) == u8_bytes(x.unknown_x03));
        lemma_u8_at_of_bytes(data, i + 3, x.unknown_x03);
        lemma_subrange_of_subrange(data, i, i + 12, 4, 6);
        assert(data.subrange(i + 4, i + 6) == u16_bytes(x.time, o));
        lemma_u16_at_of_bytes(data, i + 4, x.time, o);
        lemma_subrange_of_subrange(data, i, i + 12, 6, 7);
        assert(data.subrange(i + 6, i + 7) == u8_bytes(x.parent));
        lemma_u8_at_of_bytes(data, i + 6, x.parent);
        lemma_subrange_of_subrange(data, i, i + 12, 7, 8);
        assert(data.subrange(i + 7, i + 8) == u8_bytes(x.part));
        lemma_u8_at_of_bytes(data, i + 7, x.part);
        lemma_subrange_of_subrange(data, i, i + 12, 8, 12);
        assert(data.subrange(i + 8, i + 12) == u32_bytes(x.flags, o));
        lemma_u32_at_of_bytes(data, i + 8, x.flags, o);
    }

    /// Decode one group at `*pos`; the caller has checked that all
    /// 12 bytes are there.
    #[verifier::rlimit(60)]
    pub fn read(data: &Vec<u8>, pos: &mut usize, o: ByteOrder) -> (g: EffectIdent)
        requires
            *old(pos) + 12 <= data@.len(),
        ensures
            *final(pos) == *old(pos) + 12,
            g == EffectIdent::decoded_at(data@, *old(pos) as int, o),
            g.wire(o) == data@.subrange(*old(pos) as int, *old(pos) + 12),
    {
        let state_id = take_u8(data, pos);
        let esp_id = take_u8(data, pos);
        let texture_id = take_u8(data, pos);
        let unknown_x03 = take_u8(data, pos);
        let time = take_u16(data, pos, o);
        let parent = take_u8(data, pos);
        let part = take_u8(data, pos);
        let flags = take_u32(data, pos, o);
        let g = EffectIdent {
            state_id,
            esp_id,
            texture_id,
            unknown_x03,
            time,
            parent,
            part,
            flags,
        };
        proof {
            let p = *old(pos) as int;
            lemma_concat_subrange(data@, p, p + 1, p + 2);
            lemma_concat_subrange(data@, p, p + 2, p + 3);
            lemma_concat_subrange(data@, p, p + 3, p + 4);
            lemma_concat_subrange(data@, p, p + 4, p + 6);
            lemma_concat_subrange(data@, p, p + 6, p + 7);
            lemma_concat_subrange(data@, p, p + 7, p + 8);
            lemma_concat_subrange(data@, p, p + 8, p + 12);
            assert(g.wire(o) == data@.subrange(p, p + 12));
        }
        g
    }

    /// Encode this group, appending its 12 wire bytes to `out`.
    #[verifier::rlimit(60)]
    pub fn write(&self, out: &mut Vec<u8>, o: ByteOrder)
        ensures
            final(out)@ == old(out)@ + self.wire(o),
    {
        put_u8(out, self.state_id);
        put_u8(out, self.esp_id);
        put_u8(out, self.texture_id);
        put_u8(out, self.unknown_x03);
        put_u16(out, self.time, o);
        put_u8(out, self.parent);
        put_u8(out, self.part);
        put_u32(out, self.flags, o);
        proof {
            assert(out@ =~= old(out)@ + self.wire(o));
        }
    }
}

/// Kinematics: position, velocity and acceleration vectors with their
/// random-jitter variants, as IEEE-754 bit patterns.
#[derive(Clone, Copy, PartialEq, Eq, Debug)]
pub struct EffectMotion {
    pub position: (u32, u32, u32),
    pub random: (u32, u32, u32),
    pub speed: (u32, u32, u32),
    pub delta_speed: u32,
    pub random_speed: (u32, u32, u32),
    pub acceleration: (u32, u32, u32),
    pub random_acceleration: (u32, u32, u32),
}

impl EffectMotion {
    /// The 76 wire bytes of this group in byte order `o`.
    pub open spec fn wire(self, o: ByteOrder) -> Seq<u8> {
        u32_bytes(self.position.0, o) + u32_bytes(self.position.1, o)
            + u32_bytes(self.position.2, o) + u32_bytes(self.random.0, o)
            + u32_bytes(self.random.1, o) + u32_bytes(self.random.2, o)
            + u32_bytes(self.speed.0, o) + u32_bytes(self.speed.1, o)
            + u32_bytes(self.speed.2, o) + u32_bytes(self.delta_speed, o)
            + u32_bytes(self.random_speed.0, o) + u32_bytes(self.random_speed.1, o)
            + u32_bytes(self.random_speed.2, o) + u32_bytes(self.acceleration.0, o)
            + u32_bytes(self.acceleration.1, o) + u32_bytes(self.acceleration.2, o)
            + u32_bytes(self.random_acceleration.0, o)
            + u32_bytes(self.random_acceleration.1, o)
            + u32_bytes(self.random_acceleration.2, o)
    }

    /// This group always occupies 76 wire bytes.
    pub proof fn lemma_wire_len(self, o: ByteOrder)
        ensures
            self.wire(o).len() == 76,
    {
    }

    /// The group stored at byte position `i` of `data` in byte order `o`.
    pub open spec fn decoded_at(data: Seq<u8>, i: int, o: ByteOrder) -> EffectMotion {
        EffectMotion {
            position: (
                u32_at(data, i, o),
                u32_at(data, i + 4, o),
                u32_at(data, i + 8, o),
            ),
            random: (
                u32_at(data, i + 12, o),
                u32_at(data, i + 16, o),
                u32_at(data, i + 20, o),
            ),
            speed: (
                u32_at(data, i + 24, o),
                u32_at(data, i + 28, o),
                u32_at(data, i + 32, o),
            ),
            delta_speed: u32_at(data, i + 36, o),
            random_speed: (
                u32_at(data, i + 40, o),
                u32_at(data, i + 44, o),
                u32_at(data, i + 48, o),
            ),
            acceleration: (
                u32_at(data, i + 52, o),
                u32_at(data, i + 56, o),
                u32_at(data, i + 60, o),
            ),
            random_acceleration: (
                u32_at(data, i + 64, o),
                u32_at(data, i + 68, o),
                u32_at(data, i + 72, o),
            ),
        }
    }

    /// Decoding any window of `data` that holds this record's wire bytes
    /// yields the record back: the codec loses nothing.
    #[verifier::rlimit(100)]
    pub proof fn lemma_decoded_of_wire(data: Seq<u8>, i: int, x: EffectMotion, o: ByteOrder)
        requires
            0 <= i,
            i + 76 <= data.len(),
            data.subrange(i, i + 76) == x.wire(o),
        ensures
            EffectMotion::decoded_at(data, i, o) == x,
    {
        assert(u32_bytes(x.position.0, o).len() == 4);
        assert(u32_bytes(x.position.1, o).len() == 4);
        assert(u32_bytes(x.position.2, o).len() == 4);
        assert(u32_bytes(x.random.0, o).len() == 4);
        assert(u32_bytes(x.random.1, o).len() == 4);
        assert(u32_bytes(x.random.2, o).len() == 4);
        assert(u32_bytes(x.speed.0, o).len() == 4);
        assert(u32_bytes(x.speed.1, o).len() == 4);
        assert(u32_bytes(x.speed.2, o).len() == 4);
        assert(u32_bytes(x.delta_speed, o).len() == 4);
        assert(u32_bytes(x.random_speed.0, o).len() == 4);
        assert(u32_bytes(x.random_speed.1, o).len() == 4);
        assert(u32_bytes(x.random_speed.2, o).len() == 4);
        assert(u32_bytes(x.acceleration.0, o).len() == 4);
        assert(u32_bytes(x.acceleration.1, o).len() == 4);
        assert(u32_bytes(x.acceleration.2, o).len() == 4);
        assert(u32_bytes(x.random_acceleration.0, o).len() == 4);
        assert(u32_bytes(x.random_acceleration.1, o).len() == 4);
        assert(u32_bytes(x.random_acceleration.2, o).len() == 4);
        assert(x.wire(o).subrange(0, 76) =~= x.wire(o));
        lemma_concat_split(u32_bytes(x.position.0, o) + u32_bytes(x.position.1, o) + u32_bytes(x.position.2, o) + u32_bytes(x.random.0, o) + u32_bytes(x.random.1, o) + u32_bytes(x.random.2, o) + u32_bytes(x.speed.0, o) + u32_bytes(x.speed.1, o) + u32_bytes(x.speed.2, o) + u32_bytes(x.delta_speed, o) + u32_bytes(x.random_speed.0, o) + u32_bytes(x.random_speed.1, o) + u32_bytes(x.random_speed.2, o) + u32_bytes(x.acceleration.0, o) + u32_bytes(x.acceleration.1, o) + u32_bytes(x.acceleration.2, o) + u32_bytes(x.random_acceleration.0, o) + u32_bytes(x.random_acceleration.1, o), u32_bytes(x.random_acceleration.2, o));
        assert(x.wire(o).subrange(0, 72) == u32_bytes(x.position.0, o) + u32_bytes(x.position.1, o) + u32_bytes(x.position.2, o) + u32_bytes(x.random.0, o) + u32_bytes(x.random.1, o) + u32_bytes(x.random.2, o) + u32_bytes(x.speed.0, o) + u32_bytes(x.speed.1, o) + u32_bytes(x.speed.2, o) + u32_bytes(x.delta_speed, o) + u32_bytes(x.random_speed.0, o) + u32_bytes(x.random_speed.1, o) + u32_bytes(x.random_speed.2, o) + u32_bytes(x.acceleration.0, o) + u32_bytes(x.acceleration.1, o) + u32_bytes(x.acceleration.2, o) + u32_bytes(x.random_acceleration.0, o) + u32_bytes(x.random_acceleration.1, o));
        assert(x.wire(o).subrange(72, 76) == u32_bytes(x.random_acceleration.2, o));
        lemma_concat_split(u32_bytes(x.position.0, o) + u32_bytes(x.position.1, o) + u32_bytes(x.position.2, o) + u32_bytes(x.random.0, o) + u32_bytes(x.random.1, o) + u32_bytes(x.random.2, o) + u32_bytes(x.speed.0, o) + u32_bytes(x.speed.1, o) + u32_bytes(x.speed.2, o) + u32_bytes(x.delta_speed, o) + u32_bytes(x.random_speed.0, o) + u32_bytes(x.random_speed.1, o) + u32_bytes(x.random_speed.2, o) + u32_bytes(x.acceleration.0, o) + u32_bytes(x.acceleration.1, o) + u32_bytes(x.acceleration.2, o) + u32_bytes(x.random_acceleration.0, o), u32_bytes(x.random_acceleration.1, o));
        lemma_subrange_of_subrange(x.wire(o), 0, 72, 0, 68);
        lemma_subrange_of_subrange(x.wire(o), 0, 72, 68, 72);
        assert(x.wire(o).subrange(0, 68) == u32_bytes(x.position.0, o) + u32_bytes(x.position.1, o) + u32_bytes(x.position.2, o) + u32_bytes(x.random.0, o) + u32_bytes(x.random.1, o) + u32_bytes(x.random.2, o) + u32_bytes(x.speed.0, o) + u32_bytes(x.speed.1, o) + u32_bytes(x.speed.2, o) + u32_bytes(x.delta_speed, o) + u32_bytes(x.random_speed.0, o) + u32_bytes(x.random_speed.1, o) + u32_bytes(x.random_speed.2, o) + u32_bytes(x.acceleration.0, o) + u32_bytes(x.acceleration.1, o) + u32_bytes(x.acceleration.2, o) + u32_bytes(x.random_acceleration.0, o));
        assert(x.wire(o).subrange(68, 72) == u32_bytes(x.random_acceleration.1, o));
        lemma_concat_split(u32_bytes(x.position.0, o) + u32_bytes(x.position.1, o) + u32_bytes(x.position.2, o) + u32_bytes(x.random.0, o) + u32_bytes(x.random.1, o) + u32_bytes(x.random.2, o) + u32_bytes(x.speed.0, o) + u32_bytes(x.speed.1, o) + u32_bytes(x.speed.2, o) + u32_bytes(x.delta_speed, o) + u32_bytes(x.random_speed.0, o) + u32_bytes(x.random_speed.1, o) + u32_bytes(x.random_speed.2, o) + u32_bytes(x.acceleration.0, o) + u32_bytes(x.acceleration.1, o) + u32_bytes(x.acceleration.2, o), u32_bytes(x.random_acceleration.0, o));
        lemma_subrange_of_subrange(x.wire(o), 0, 68, 0, 64);
        lemma_subrange_of_subrange(x.wire(o), 0, 68, 64, 68);
        assert(x.wire(o).subrange(0, 64) == u32_bytes(x.position.0, o) + u32_bytes(x.position.1, o) + u32_bytes(x.position.2, o) + u32_bytes(x.random.0, o) + u32_bytes(x.random.1, o) + u32_bytes(x.random.2, o) + u32_bytes(x.speed.0, o) + u32_bytes(x.speed.1, o) + u32_bytes(x.speed.2, o) + u32_bytes(x.delta_speed, o) + u32_bytes(x.random_speed.0, o) + u32_bytes(x.random_speed.1, o) + u32_bytes(x.random_speed.2, o) + u32_bytes(x.acceleration.0, o) + u32_bytes(x.acceleration.1, o) + u32_bytes(x.acceleration.2, o));
        assert(x.wire(o).subrange(64, 68) == u32_bytes(x.random_acceleration.0, o));
        lemma_concat_split(u32_bytes(x.position.0, o) + u32_bytes(x.position.1, o) + u32_bytes(x.position.2, o) + u32_bytes(x.random.0, o) + u32_bytes(x.random.1, o) + u32_bytes(x.random.2, o) + u32_bytes(x.speed.0, o) + u32_bytes(x.speed.1, o) + u32_bytes(x.speed.2, o) + u32_bytes(x.delta_speed, o) + u32_bytes(x.random_speed.0, o) + u32_bytes(x.random_speed.1, o) + u32_bytes(x.random_speed.2, o) + u32_bytes(x.acceleration.0, o) + u32_bytes(x.acceleration.1, o), u32_bytes(x.acceleration.2, o));
        lemma_subrange_of_subrange(x.wire(o), 0, 64, 0, 60);
        lemma_subrange_of_subrange(x.wire(o), 0, 64, 60, 64);
        assert(x.wire(o).subrange(0, 60) == u32_bytes(x.position.0, o) + u32_bytes(x.position.1, o) + u32_bytes(x.position.2, o) + u32_bytes(x.random.0, o) + u32_bytes(x.random.1, o) + u32_bytes(x.random.2, o) + u32_bytes(x.speed.0, o) + u32_bytes(x.speed.1, o) + u32_bytes(x.speed.2, o) + u32_bytes(x.delta_speed, o) + u32_bytes(x.random_speed.0, o) + u32_bytes(x.random_speed.1, o) + u32_bytes(x.random_speed.2, o) + u32_bytes(x.acceleration.0, o) + u32_bytes(x.acceleration.1, o));
        assert(x.wire(o).subrange(60, 64) == u32_bytes(x.acceleration.2, o));
        lemma_concat_split(u32_bytes(x.position.0, o) + u32_bytes(x.position.1, o) + u32_bytes(x.position.2, o) + u32_bytes(x.random.0, o) + u32_bytes(x.random.1, o) + u32_bytes(x.random.2, o) + u32_bytes(x.speed.0, o) + u32_bytes(x.speed.1, o) + u32_bytes(x.speed.2, o) + u32_bytes(x.delta_speed, o) + u32_bytes(x.random_speed.0, o) + u32_bytes(x.random_speed.1, o) + u32_bytes(x.random_speed.2, o) + u32_bytes(x.acceleration.0, o), u32_bytes(x.acceleration.1, o));
        lemma_subrange_of_subrange(x.wire(o), 0, 60, 0, 56);
        lemma_subrange_of_subrange(x.wire(o), 0, 60, 56, 60);
        assert(x.wire(o).subrange(0, 56) == u32_bytes(x.position.0, o) + u32_bytes(x.position.1, o) + u32_bytes(x.position.2, o) + u32_bytes(x.random.0, o) + u32_bytes(x.random.1, o) + u32_bytes(x.random.2, o) + u32_bytes(x.speed.0, o) + u32_bytes(x.speed.1, o) + u32_bytes(x.speed.2, o) + u32_bytes(x.delta_speed, o) + u32_bytes(x.random_speed.0, o) + u32_bytes(x.random_speed.1, o) + u32_bytes(x.random_speed.2, o) + u32_bytes(x.acceleration.0, o));
        assert(x.wire(o).subrange(56, 60) == u32_bytes(x.acceleration.1, o));
        lemma_concat_split(u32_bytes(x.position.0, o) + u32_bytes(x.position.1, o) + u32_bytes(x.position.2, o) + u32_bytes(x.random.0, o) + u32_bytes(x.random.1, o) + u32_bytes(x.random.2, o) + u32_bytes(x.speed.0, o) + u32_bytes(x.speed.1, o) + u32_bytes(x.speed.2, o) + u32_bytes(x.delta_speed, o) + u32_bytes(x.random_speed.0, o) + u32_bytes(x.random_speed.1, o) + u32_bytes(x.random_speed.2, o), u32_bytes(x.acceleration.0, o));
        lemma_subrange_of_subrange(x.wire(o), 0, 56, 0, 52);
        lemma_subrange_of_subrange(x.wire(o), 0, 56, 52, 56);
        assert(x.wire(o).subrange(0, 52) == u32_bytes(x.position.0, o) + u32_bytes(x.position.1, o) + u32_bytes(x.position.2, o) + u32_bytes(x.random.0, o) + u32_bytes(x.random.1, o) + u32_bytes(x.random.2, o) + u32_bytes(x.speed.0, o) + u32_bytes(x.speed.1, o) + u32_bytes(x.speed.2, o) + u32_bytes(x.delta_speed, o) + u32_bytes(x.random_speed.0, o) + u32_bytes(x.random_speed.1, o) + u32_bytes(x.random_speed.2, o));
        assert(x.wire(o).subrange(52, 56) == u32_bytes(x.acceleration.0, o));
        lemma_concat_split(u32_bytes(x.position.0, o) + u32_bytes(x.position.1, o) + u32_bytes(x.position.2, o) + u32_bytes(x.random.0, o) + u32_bytes(x.random.1, o) + u32_bytes(x.random.2, o) + u32_bytes(x.speed.0, o) + u32_bytes(x.speed.1, o) + u32_bytes(x.speed.2, o) + u32_bytes(x.delta_speed, o) + u32_bytes(x.random_speed.0, o) + u32_bytes(x.random_speed.1, o), u32_bytes(x.random_speed.2, o));
        lemma_subrange_of_subrange(x.wire(o), 0, 52, 0, 48);
        lemma_subrange_of_subrange(x.wire(o), 0, 52, 48, 52);
        assert(x.wire(o).subrange(0, 48) == u32_bytes(x.position.0, o) + u32_bytes(x.position.1, o) + u32_bytes(x.position.2, o) + u32_bytes(x.random.0, o) + u32_bytes(x.random.1, o) + u32_bytes(x.random.2, o) + u32_bytes(x.speed.0, o) + u32_bytes(x.speed.1, o) + u32_bytes(x.speed.2, o) + u32_bytes(x.delta_speed, o) + u32_bytes(x.random_speed.0, o) + u32_bytes(x.random_speed.1, o));
        assert(x.wire(o).subrange(48, 52) == u32_bytes(x.random_speed.2, o));
        lemma_concat_split(u32_bytes(x.position.0, o) + u32_bytes(x.position.1, o) + u32_bytes(x.position.2, o) + u32_bytes(x.random.0, o) + u32_bytes(x.random.1, o) + u32_bytes(x.random.2, o) + u32_bytes(x.speed.0, o) + u32_bytes(x.speed.1, o) + u32_bytes(x.speed.2, o) + u32_bytes(x.delta_speed, o) + u32_bytes(x.random_speed.0, o), u32_bytes(x.random_speed.1, o));
        lemma_subrange_of_subrange(x.wire(o), 0, 48, 0, 44);
        lemma_subrange_of_subrange(x.wire(o), 0, 48, 44, 48);
        assert(x.wire(o).subrange(0, 44) == u32_bytes(x.position.0, o) + u32_bytes(x.position.1, o) + u32_bytes(x.position.2, o) + u32_bytes(x.random.0, o) + u32_bytes(x.random.1, o) + u32_bytes(x.random.2, o) + u32_bytes(x.speed.0, o) + u32_bytes(x.speed.1, o) + u32_bytes(x.speed.2, o) + u32_bytes(x.delta_speed, o) + u32_bytes(x.random_speed.0, o));
        assert(x.wire(o).subrange(44, 48) == u32_bytes(x.random_speed.1, o));
        lemma_concat_split(u32_bytes(x.position.0, o) + u32_bytes(x.position.1, o) + u32_bytes(x.position.2, o) + u32_bytes(x.random.0, o) + u32_bytes(x.random.1, o) + u32_bytes(x.random.2, o) + u32_bytes(x.speed.0, o) + u32_bytes(x.speed.1, o) + u32_bytes(x.speed.2, o) + u32_bytes(x.delta_speed, o), u32_bytes(x.random_speed.0, o));
        lemma_subrange_of_subrange(x.wire(o), 0, 44, 0, 40);
        lemma_subrange_of_subrange(x.wire(o), 0, 44, 40, 44);
        assert(x.wire(o).subrange(0, 40) == u32_bytes(x.position.0, o) + u32_bytes(x.position.1, o) + u32_bytes(x.position.2, o) + u32_bytes(x.random.0, o) + u32_bytes(x.random.1, o) + u32_bytes(x.random.2, o) + u32_bytes(x.speed.0, o) + u32_bytes(x.speed.1, o) + u32_bytes(x.speed.2, o) + u32_bytes(x.delta_speed, o));
        assert(x.wire(o).subrange(40, 44) == u32_bytes(x.random_speed.0, o));
        lemma_concat_split(u32_bytes(x.position.0, o) + u32_bytes(x.position.1, o) + u32_bytes(x.position.2, o) + u32_bytes(x.random.0, o) + u32_bytes(x.random.1, o) + u32_bytes(x.random.2, o) + u32_bytes(x.speed.0, o) + u32_bytes(x.speed.1, o) + u32_bytes(x.speed.2, o), u32_bytes(x.delta_speed, o));
        lemma_subrange_of_subrange(x.wire(o), 0, 40, 0, 36);
        lemma_subrange_of_subrange(x.wire(o), 0, 40, 36, 40);
        assert(x.wire(o).subrange(0, 36) == u32_bytes(x.position.0, o) + u32_bytes(x.position.1, o) + u32_bytes(x.position.2, o) + u32_bytes(x.random.0, o) + u32_bytes(x.random.1, o) + u32_bytes(x.random.2, o) + u32_bytes(x.speed.0, o) + u32_bytes(x.speed.1, o) + u32_bytes(x.speed.2, o));
        assert(x.wire(o).subrange(36, 40) == u32_bytes(x.delta_speed, o));
        lemma_concat_split(u32_bytes(x.position.0, o) + u32_bytes(x.position.1, o) + u32_bytes(x.position.2, o) + u32_bytes(x.random.0, o) + u32_bytes(x.random.1, o) + u32_bytes(x.random.2, o) + u32_bytes(x.speed.0, o) + u32_bytes(x.speed.1, o), u32_bytes(x.speed.2, o));
        lemma_subrange_of_subrange(x.wire(o), 0, 36, 0, 32);
        lemma_subrange_of_subrange(x.wire(o), 0, 36, 32, 36);
        assert(x.wire(o).subrange(0, 32) == u32_bytes(x.position.0, o) + u32_bytes(x.position.1, o) + u32_bytes(x.position.2, o) + u32_bytes(x.random.0, o) + u32_bytes(x.random.1, o) + u32_bytes(x.random.2, o) + u32_bytes(x.speed.0, o) + u32_bytes(x.speed.1, o));
        assert(x.wire(o).subrange(32, 36) == u32_bytes(x.speed.2, o));
        lemma_concat_split(u32_bytes(x.position.0, o) + u32_bytes(x.position.1, o) + u32_bytes(x.position.2, o) + u32_bytes(x.random.0, o) + u32_bytes(x.random.1, o) + u32_bytes(x.random.2, o) + u32_bytes(x.speed.0, o), u32_bytes(x.speed.1, o));
        lemma_subrange_of_subrange(x.wire(o), 0, 32, 0, 28);
        lemma_subrange_of_subrange(x.wire(o), 0, 32, 28, 32);
        assert(x.wire(o).subrange(0, 28) == u32_bytes(x.position.0, o) + u32_bytes(x.position.1, o) + u32_bytes(x.position.2, o) + u32_bytes(x.random.0, o) + u32_bytes(x.random.1, o) + u32_bytes(x.random.2, o) + u32_bytes(x.speed.0, o));
        assert(x.wire(o).subrange(28, 32) == u32_bytes(x.speed.1, o));
        lemma_concat_split(u32_bytes(x.position.0, o) + u32_bytes(x.position.1, o) + u32_bytes(x.position.2, o) + u32_bytes(x.random.0, o) + u32_bytes(x.random.1, o) + u32_bytes(x.random.2, o), u32_bytes(x.speed.0, o));
        lemma_subrange_of_subrange(x.wire(o), 0, 28, 0, 24);
        lemma_subrange_of_subrange(x.wire(o), 0, 28, 24, 28);
        assert(x.wire(o).subrange(0, 24) == u32_bytes(x.position.0, o) + u32_bytes(x.position.1, o) + u32_bytes(x.position.2, o) + u32_bytes(x.random.0, o) + u32_bytes(x.random.1, o) + u32_bytes(x.random.2, o));
        assert(x.wire(o).subrange(24, 28) == u32_bytes(x.speed.0, o));
        lemma_concat_split(u32_bytes(x.position.0, o) + u32_bytes(x.position.1, o) + u32_bytes(x.position.2, o) + u32_bytes(x.random.0, o) + u32_bytes(x.random.1, o), u32_bytes(x.random.2, o));
        lemma_subrange_of_subrange(x.wire(o), 0, 24, 0, 20);
        lemma_subrange_of_subrange(x.wire(o), 0, 24, 20, 24);
        assert(x.wire(o).subrange(0, 20) == u32_bytes(x.position.0, o) + u32_bytes(x.position.1, o) + u32_bytes(x.position.2, o) + u32_bytes(x.random.0, o) + u32_bytes(x.random.1, o));
        assert(x.wire(o).subrange(20, 24) == u32_bytes(x.random.2, o));
        lemma_concat_split(u32_bytes(x.position.0, o) + u32_bytes(x.position.1, o) + u32_bytes(x.position.2, o) + u32_bytes(x.random.0, o), u32_bytes(x.random.1, o));
        lemma_subrange_of_subrange(x.wire(o), 0, 20, 0, 16);
        lemma_subrange_of_subrange(x.wire(o), 0, 20, 16, 20);
        assert(x.wire(o).subrange(0, 16) == u32_bytes(x.position.0, o) + u32_bytes(x.position.1, o) + u32_bytes(x.position.2, o) + u32_bytes(x.random.0, o));
        assert(x.wire(o).subrange(16, 20) == u32_bytes(x.random.1, o));
        lemma_concat_split(u32_bytes(x.position.0, o) + u32_bytes(x.position.1, o) + u32_bytes(x.position.2, o), u32_bytes(x.random.0, o));
        lemma_subrange_of_subrange(x.wire(o), 0, 16, 0, 12);
        lemma_subrange_of_subrange(x.wire(o), 0, 16, 12, 16);
        assert(x.wire(o).subrange(0, 12) == u32_bytes(x.position.0, o) + u32_bytes(x.position.1, o) + u32_bytes(x.position.2, o));
        assert(x.wire(o).subrange(12, 16) == u32_bytes(x.random.0, o));
        lemma_concat_split(u32_bytes(x.position.0, o) + u32_bytes(x.position.1, o), u32_bytes(x.position.2, o));
        lemma_subrange_of_subrange(x.wire(o), 0, 12, 0, 8);
        lemma_subrange_of_subrange(x.wire(o), 0, 12, 8, 12);
        assert(x.wire(o).subrange(0, 8) == u32_bytes(x.position.0, o) + u32_bytes(x.position.1, o));
        assert(x.wire(o).subrange(8, 12) == u32_bytes(x.position.2, o));
        lemma_concat_split(u32_bytes(x.position.0, o), u32_bytes(x.position.1, o));
        lemma_subrange_of_subrange(x.wire(o), 0, 8, 0, 4);
        lemma_subrange_of_subrange(x.wire(o), 0, 8, 4, 8);
        assert(x.wire(o).subrange(0, 4) == u32_bytes(x.position.0, o));
        assert(x.wire(o).subrange(4, 8) == u32_bytes(x.position.1, o));
        lemma_subrange_of_subrange(data, i, i + 76, 0, 4);
        assert(data.subrange(i, i + 4) == u32_bytes(x.position.0, o));
        lemma_u32_at_of_bytes(data, i, x.position.0, o);
        lemma_subrange_of_subrange(data, i, i + 76, 4, 8);
        assert(data.subrange(i + 4, i + 8) == u32_bytes(x.position.1, o));
        lemma_u32_at_of_bytes(data, i + 4, x.position.1, o);
        lemma_subrange_of_subrange(data, i, i + 76, 8, 12);
        assert(data.subrange(i + 8, i + 12) == u32_bytes(x.position.2, o));
        lemma_u32_at_of_bytes(data, i + 8, x.position.2, o);
        lemma_subrange_of_subrange(data, i, i + 76, 12, 16);
        assert(data.subrange(i + 12, i + 16) == u32_bytes(x.random.0, o));
        lemma_u32_at_of_bytes(data, i + 12, x.random.0, o);
        lemma_subrange_of_subrange(data, i, i + 76, 16, 20);
        assert(data.subrange(i + 16, i + 20) == u32_bytes(x.random.1, o));
        lemma_u32_at_of_bytes(data, i + 16, x.random.1, o);
        lemma_subrange_of_subrange(data, i, i + 76, 20, 24);
        assert(data.subrange(i + 20, i + 24) == u32_bytes(x.random.2, o));
        lemma_u32_at_of_bytes(data, i + 20, x.random.2, o);
        lemma_subrange_of_subrange(data, i, i + 76, 24, 28);
        assert(data.subrange(i + 24, i + 28) == u32_bytes(x.speed.0, o));
        lemma_u32_at_of_bytes(data, i + 24, x.speed.0, o);
        lemma_subrange_of_subrange(data, i, i + 76, 28, 32);
        assert(data.subrange(i + 28, i + 32) == u32_bytes(x.speed.1, o));
        lemma_u32_at_of_bytes(data, i + 28, x.speed.1, o);
        lemma_subrange_of_subrange(data, i, i + 76, 32, 36);
        assert(data.subrange(i + 32, i + 36) == u32_bytes(x.speed.2, o));
        lemma_u32_at_of_bytes(data, i + 32, x.speed.2, o);
        lemma_subrange_of_subrange(data, i, i + 76, 36, 40);
        assert(data.subrange(i + 36, i + 40) == u32_bytes(x.delta_speed, o));
        lemma_u32_at_of_bytes(data, i + 36, x.delta_speed, o);
        lemma_subrange_of_subrange(data, i, i + 76, 40, 44);
        assert(data.subrange(i + 40, i + 44) == u32_bytes(x.random_speed.0, o));
        lemma_u32_at_of_bytes(data, i + 40, x.random_speed.0, o);
        lemma_subrange_of_subrange(data, i, i + 76, 44, 48);
        assert(data.subrange(i + 44, i + 48) == u32_bytes(x.random_speed.1, o));
        lemma_u32_at_of_bytes(data, i + 44, x.random_speed.1, o);
        lemma_subrange_of_subrange(data, i, i + 76, 48, 52);
        assert(data.subrange(i + 48, i + 52) == u32_bytes(x.random_speed.2, o));
        lemma_u32_at_of_bytes(data, i + 48, x.random_speed.2, o);
        lemma_subrange_of_subrange(data, i, i + 76, 52, 56);
        assert(data.subrange(i + 52, i + 56) == u32_bytes(x.acceleration.0, o));
        lemma_u32_at_of_bytes(data, i + 52, x.acceleration.0, o);
        lemma_subrange_of_subrange(data, i, i + 76, 56, 60);
        assert(data.subrange(i + 56, i + 60) == u32_bytes(x.acceleration.1, o));
        lemma_u32_at_of_bytes(data, i + 56, x.acceleration.1, o);
        lemma_subrange_of_subrange(data, i, i + 76, 60, 64);
        assert(data.subrange(i + 60, i + 64) == u32_bytes(x.acceleration.2, o));
        lemma_u32_at_of_bytes(data, i + 60, x.acceleration.2, o);
        lemma_subrange_of_subrange(data, i, i + 76, 64, 68);
        assert(data.subrange(i + 64, i + 68) == u32_bytes(x.random_acceleration.0, o));
        lemma_u32_at_of_bytes(data, i + 64, x.random_acceleration.0, o);
        lemma_subrange_of_subrange(data, i, i + 76, 68, 72);
        assert(data.subrange(i + 68, i + 72) == u32_bytes(x.random_acceleration.1, o));
        lemma_u32_at_of_bytes(data, i + 68, x.random_acceleration.1, o);
        lemma_subrange_of_subrange(data, i, i + 76, 72, 76);
        assert(data.subrange(i + 72, i + 76) == u32_bytes(x.random_acceleration.2, o));
        lemma_u32_at_of_bytes(data, i + 72, x.random_acceleration.2, o);
    }

    /// Decode one group at `*pos`; the caller has checked that all
    /// 76 bytes are there.
    #[verifier::rlimit(60)]
    pub fn read(data: &Vec<u8>, pos: &mut usize, o: ByteOrder) -> (g: EffectMotion)
        requires
            *old(pos) + 76 <= data@.len(),
        ensures
            *final(pos) == *old(pos) + 76,
            g == EffectMotion::decoded_at(data@, *old(pos) as int, o),
            g.wire(o) == data@.subrange(*old(pos) as int, *old(pos) + 76),
    {
        let position_0 = take_u32(data, pos, o);
        let position_1 = take_u32(data, pos, o);
        let position_2 = take_u32(data, pos, o);
        let random_0 = take_u32(data, pos, o);
        let random_1 = take_u32(data, pos, o);
        let random_2 = take_u32(data, pos, o);
        let speed_0 = take_u32(data, pos, o);
        let speed_1 = take_u32(data, pos, o);
        let speed_2 = take_u32(data, pos, o);
        let delta_speed = take_u32(data, pos, o);
        let random_speed_0 = take_u32(data, pos, o);
        let random_speed_1 = take_u32(data, pos, o);
        let random_speed_2 = take_u32(data, pos, o);
        let acceleration_0 = take_u32(data, pos, o);
        let acceleration_1 = take_u32(data, pos, o);
        let acceleration_2 = take_u32(data, pos, o);
        let random_acceleration_0 = take_u32(data, pos, o);
        let random_acceleration_1 = take_u32(data, pos, o);
        let random_acceleration_2 = take_u32(data, pos, o);
        let g = EffectMotion {
            position: (position_0, position_1, position_2),
            random: (random_0, random_1, random_2),
            speed: (speed_0, speed_1, speed_2),
            delta_speed,
            random_speed: (random_speed_0, random_speed_1, random_speed_2),
            acceleration: (acceleration_0, acceleration_1, acceleration_2),
            random_acceleration: (random_acceleration_0, random_acceleration_1, random_acceleration_2),
        };
        proof {
            let p = *old(pos) as int;
            lemma_concat_subrange(data@, p, p + 4, p + 8);
            lemma_concat_subrange(data@, p, p + 8, p + 12);
            lemma_concat_subrange(data@, p, p + 12, p + 16);
            lemma_concat_subrange(data@, p, p + 16, p + 20);
            lemma_concat_subrange(data@, p, p + 20, p + 24);
            lemma_concat_subrange(data@, p, p + 24, p + 28);
            lemma_concat_subrange(data@, p, p + 28, p + 32);
            lemma_concat_subrange(data@, p, p + 32, p + 36);
            lemma_concat_subrange(data@, p, p + 36, p + 40);
            lemma_concat_subrange(data@, p, p + 40, p + 44);
            lemma_concat_subrange(data@, p, p + 44, p + 48);
            lemma_concat_subrange(data@, p, p + 48, p + 52);
            lemma_concat_subrange(data@, p, p + 52, p + 56);
            lemma_concat_subrange(data@, p, p + 56, p + 60);
            lemma_concat_subrange(data@, p, p + 60, p + 64);
            lemma_concat_subrange(data@, p, p + 64, p + 68);
            lemma_concat_subrange(data@, p, p + 68, p + 72);
            lemma_concat_subrange(data@, p, p + 72, p + 76);
            assert(g.wire(o) == data@.subrange(p, p + 76));
        }
        g
    }

    /// Encode this group, appending its 76 wire bytes to `out`.
    #[verifier::rlimit(60)]
    pub fn write(&self, out: &mut Vec<u8>, o: ByteOrder)
        ensures
            final(out)@ == old(out)@ + self.wire(o),
    {
        put_u32(out, self.position.0, o);
        put_u32(out, self.position.1, o);
        put_u32(out, self.position.2, o);
        put_u32(out, self.random.0, o);
        put_u32(out, self.random.1, o);
        put_u32(out, self.random.2, o);
        put_u32(out, self.speed.0, o);
        put_u32(out, self.speed.1, o);
        put_u32(out, self.speed.2, o);
        put_u32(out, self.delta_speed, o);
        put_u32(out, self.random_speed.0, o);
        put_u32(out, self.random_speed.1, o);
        put_u32(out, self.random_speed.2, o);
        put_u32(out, self.acceleration.0, o);
        put_u32(out, self.acceleration.1, o);
        put_u32(out, self.acceleration.2, o);
        put_u32(out, self.random_acceleration.0, o);
        put_u32(out, self.random_acceleration.1, o);
        put_u32(out, self.random_acceleration.2, o);
        proof {
            assert(out@ =~= old(out)@ + self.wire(o));
        }
    }
}

/// Rotation and size: angular position, velocity and acceleration with
/// jitter variants, plus the sprite extents and growth rates.
#[derive(Clone, Copy, PartialEq, Eq, Debug)]
pub struct EffectRotation {
    pub rotate: (u32, u32, u32),
    pub random_rotate: (u32, u32, u32),
    pub rotate_acceleration: (u32, u32, u32),
    pub random_rotate_acceleration: (u32, u32, u32),
    pub width: u32,
    pub height: u32,
    pub random_size: u32,
    pub grow: u32,
    pub delta_grow: u32,
}

impl EffectRotation {
    /// The 68 wire bytes of this group in byte order `o`.
    pub open spec fn wire(self, o: ByteOrder) -> Seq<u8> {
        u32_bytes(self.rotate.0, o) + u32_bytes(self.rotate.1, o) + u32_bytes(self.rotate.2, o)
            + u32_bytes(self.random_rotate.0, o) + u32_bytes(self.random_rotate.1, o)
            + u32_bytes(self.random_rotate.2, o) + u32_bytes(self.rotate_acceleration.0, o)
            + u32_bytes(self.rotate_acceleration.1, o)
            + u32_bytes(self.rotate_acceleration.2, o)
            + u32_bytes(self.random_rotate_acceleration.0, o)
            + u32_bytes(self.random_rotate_acceleration.1, o)
            + u32_bytes(self.random_rotate_acceleration.2, o) + u32_bytes(self.width, o)
            + u32_bytes(self.height, o) + u32_bytes(self.random_size, o)
            + u32_bytes(self.grow, o) + u32_bytes(self.delta_grow, o)
    }

    /// This group always occupies 68 wire bytes.
    pub proof fn lemma_wire_len(self, o: ByteOrder)
        ensures
            self.wire(o).len() == 68,
    {
    }

    /// The group stored at byte position `i` of `data` in byte order `o`.
    pub open spec fn decoded_at(data: Seq<u8>, i: int, o: ByteOrder) -> EffectRotation {
        EffectRotation {
            rotate: (
                u32_at(data, i, o),
                u32_at(data, i + 4, o),
                u32_at(data, i + 8, o),
            ),
            random_rotate: (
                u32_at(data, i + 12, o),
                u32_at(data, i + 16, o),
                u32_at(data, i + 20, o),
            ),
            rotate_acceleration: (
                u32_at(data, i + 24, o),
                u32_at(data, i + 28, o),
                u32_at(data, i + 32, o),
            ),
            random_rotate_acceleration: (
                u32_at(data, i + 36, o),
                u32_at(data, i + 40, o),
                u32_at(data, i + 44, o),
            ),
            width: u32_at(data, i + 48, o),
            height: u32_at(data, i + 52, o),
            random_size: u32_at(data, i + 56, o),
            grow: u32_at(data, i + 60, o),
            delta_grow: u32_at(data, i + 64, o),
        }
    }

    /// Decoding any window of `data` that holds this record's wire bytes
    /// yields the record back: the codec loses nothing.
    #[verifier::rlimit(100)]
    pub proof fn lemma_decoded_of_wire(data: Seq<u8>, i: int, x: EffectRotation, o: ByteOrder)
        requires
            0 <= i,
            i + 68 <= data.len(),
            data.subrange(i, i + 68) == x.wire(o),
        ensures
            EffectRotation::decoded_at(data, i, o) == x,
    {
        assert(u32_bytes(x.rotate.0, o).len() == 4);
        assert(u32_bytes(x.rotate.1, o).len() == 4);
        assert(u32_bytes(x.rotate.2, o).len() == 4);
        assert(u32_bytes(x.random_rotate.0, o).len() == 4);
        assert(u32_bytes(x.random_rotate.1, o).len() == 4);
        assert(u32_bytes(x.random_rotate.2, o).len() == 4);
        assert(u32_bytes(x.rotate_acceleration.0, o).len() == 4);
        assert(u32_bytes(x.rotate_acceleration.1, o).len() == 4);
        assert(u32_bytes(x.rotate_acceleration.2, o).len() == 4);
        assert(u32_bytes(x.random_rotate_acceleration.0, o).len() == 4);
        assert(u32_bytes(x.random_rotate_acceleration.1, o).len() == 4);
        assert(u32_bytes(x.random_rotate_acceleration.2, o).len() == 4);
        assert(u32_bytes(x.width, o).len() == 4);
        assert(u32_bytes(x.height, o).len() == 4);
        assert(u32_bytes(x.random_size, o).len() == 4);
        assert(u32_bytes(x.grow, o).len() == 4);
        assert(u32_bytes(x.delta_grow, o).len() == 4);
        assert(x.wire(o).subrange(0, 68) =~= x.wire(o));
        lemma_concat_split(u32_bytes(x.rotate.0, o) + u32_bytes(x.rotate.1, o) + u32_bytes(x.rotate.2, o) + u32_bytes(x.random_rotate.0, o) + u32_bytes(x.random_rotate.1, o) + u32_bytes(x.random_rotate.2, o) + u32_bytes(x.rotate_acceleration.0, o) + u32_bytes(x.rotate_acceleration.1, o) + u32_bytes(x.rotate_acceleration.2, o) + u32_bytes(x.random_rotate_acceleration.0, o) + u32_bytes(x.random_rotate_acceleration.1, o) + u32_bytes(x.random_rotate_acceleration.2, o) + u32_bytes(x.width, o) + u32_bytes(x.height, o) + u32_bytes(x.random_size, o) + u32_bytes(x.grow, o), u32_bytes(x.delta_grow, o));
        assert(x.wire(o).subrange(0, 64) == u32_bytes(x.rotate.0, o) + u32_bytes(x.rotate.1, o) + u32_bytes(x.rotate.2, o) + u32_bytes(x.random_rotate.0, o) + u32_bytes(x.random_rotate.1, o) + u32_bytes(x.random_rotate.2, o) + u32_bytes(x.rotate_acceleration.0, o) + u32_bytes(x.rotate_acceleration.1, o) + u32_bytes(x.rotate_acceleration.2, o) + u32_bytes(x.random_rotate_acceleration.0, o) + u32_bytes(x.random_rotate_acceleration.1, o) + u32_bytes(x.random_rotate_acceleration.2, o) + u32_bytes(x.width, o) + u32_bytes(x.height, o) + u32_bytes(x.random_size, o) + u32_bytes(x.grow, o));
        assert(x.wire(o).subrange(64, 68) == u32_bytes(x.delta_grow, o));
        lemma_concat_split(u32_bytes(x.rotate.0, o) + u32_bytes(x.rotate.1, o) + u32_bytes(x.rotate.2, o) + u32_bytes(x.random_rotate.0, o) + u32_bytes(x.random_rotate.1, o) + u32_bytes(x.random_rotate.2, o) + u32_bytes(x.rotate_acceleration.0, o) + u32_bytes(x.rotate_acceleration.1, o) + u32_bytes(x.rotate_acceleration.2, o) + u32_bytes(x.random_rotate_acceleration.0, o) + u32_bytes(x.random_rotate_acceleration.1, o) + u32_bytes(x.random_rotate_acceleration.2, o) + u32_bytes(x.width, o) + u32_bytes(x.height, o) + u32_bytes(x.random_size, o), u32_bytes(x.grow, o));
        lemma_subrange_of_subrange(x.wire(o), 0, 64, 0, 60);
        lemma_subrange_of_subrange(x.wire(o), 0, 64, 60, 64);
        assert(x.wire(o).subrange(0, 60) == u32_bytes(x.rotate.0, o) + u32_bytes(x.rotate.1, o) + u32_bytes(x.rotate.2, o) + u32_bytes(x.random_rotate.0, o) + u32_bytes(x.random_rotate.1, o) + u32_bytes(x.random_rotate.2, o) + u32_bytes(x.rotate_acceleration.0, o) + u32_bytes(x.rotate_acceleration.1, o) + u32_bytes(x.rotate_acceleration.2, o) + u32_bytes(x.random_rotate_acceleration.0, o) + u32_bytes(x.random_rotate_acceleration.1, o) + u32_bytes(x.random_rotate_acceleration.2, o) + u32_bytes(x.width, o) + u32_bytes(x.height, o) + u32_bytes(x.random_size, o));
        assert(x.wire(o).subrange(60, 64) == u32_bytes(x.grow, o));
        lemma_concat_split(u32_bytes(x.rotate.0, o) + u32_bytes(x.rotate.1, o) + u32_bytes(x.rotate.2, o) + u32_bytes(x.random_rotate.0, o) + u32_bytes(x.random_rotate.1, o) + u32_bytes(x.random_rotate.2, o) + u32_bytes(x.rotate_acceleration.0, o) + u32_bytes(x.rotate_acceleration.1, o) + u32_bytes(x.rotate_acceleration.2, o) + u32_bytes(x.random_rotate_acceleration.0, o) + u32_bytes(x.random_rotate_acceleration.1, o) + u32_bytes(x.random_rotate_acceleration.2, o) + u32_bytes(x.width, o) + u32_bytes(x.height, o), u32_bytes(x.random_size, o));
        lemma_subrange_of_subrange(x.wire(o), 0, 60, 0, 56);
        lemma_subrange_of_subrange(x.wire(o), 0, 60, 56, 60);
        assert(x.wire(o).subrange(0, 56) == u32_bytes(x.rotate.0, o) + u32_bytes(x.rotate.1, o) + u32_bytes(x.rotate.2, o) + u32_bytes(x.random_rotate.0, o) + u32_bytes(x.random_rotate.1, o) + u32_bytes(x.random_rotate.2, o) + u32_bytes(x.rotate_acceleration.0, o) + u32_bytes(x.rotate_acceleration.1, o) + u32_bytes(x.rotate_acceleration.2, o) + u32_bytes(x.random_rotate_acceleration.0, o) + u32_bytes(x.random_rotate_acceleration.1, o) + u32_bytes(x.random_rotate_acceleration.2, o) + u32_bytes(x.width, o) + u32_bytes(x.height, o));
        assert(x.wire(o).subrange(56, 60) == u32_bytes(x.random_size, o));
        lemma_concat_split(u32_bytes(x.rotate.0, o) + u32_bytes(x.rotate.1, o) + u32_bytes(x.rotate.2, o) + u32_bytes(x.random_rotate.0, o) + u32_bytes(x.random_rotate.1, o) + u32_bytes(x.random_rotate.2, o) + u32_bytes(x.rotate_acceleration.0, o) + u32_bytes(x.rotate_acceleration.1, o) + u32_bytes(x.rotate_acceleration.2, o) + u32_bytes(x.random_rotate_acceleration.0, o) + u32_bytes(x.random_rotate_acceleration.1, o) + u32_bytes(x.random_rotate_acceleration.2, o) + u32_bytes(x.width, o), u32_bytes(x.height, o));
        lemma_subrange_of_subrange(x.wire(o), 0, 56, 0, 52);
        lemma_subrange_of_subrange(x.wire(o), 0, 56, 52, 56);
        assert(x.wire(o).subrange(0, 52) == u32_bytes(x.rotate.0, o) + u32_bytes(x.rotate.1, o) + u32_bytes(x.rotate.2, o) + u32_bytes(x.random_rotate.0, o) + u32_bytes(x.random_rotate.1, o) + u32_bytes(x.random_rotate.2, o) + u32_bytes(x.rotate_acceleration.0, o) + u32_bytes(x.rotate_acceleration.1, o) + u32_bytes(x.rotate_acceleration.2, o) + u32_bytes(x.random_rotate_acceleration.0, o) + u32_bytes(x.random_rotate_acceleration.1, o) + u32_bytes(x.random_rotate_acceleration.2, o) + u32_bytes(x.width, o));
        assert(x.wire(o).subrange(52, 56) == u32_bytes(x.height, o));
        lemma_concat_split(u32_bytes(x.rotate.0, o) + u32_bytes(x.rotate.1, o) + u32_bytes(x.rotate.2, o) + u32_bytes(x.random_rotate.0, o) + u32_bytes(x.random_rotate.1, o) + u32_bytes(x.random_rotate.2, o) + u32_bytes(x.rotate_acceleration.0, o) + u32_bytes(x.rotate_acceleration.1, o) + u32_bytes(x.rotate_acceleration.2, o) + u32_bytes(x.random_rotate_acceleration.0, o) + u32_bytes(x.random_rotate_acceleration.1, o) + u32_bytes(x.random_rotate_acceleration.2, o), u32_bytes(x.width, o));
        lemma_subrange_of_subrange(x.wire(o), 0, 52, 0, 48);
        lemma_subrange_of_subrange(x.wire(o), 0, 52, 48, 52);
        assert(x.wire(o).subrange(0, 48) == u32_bytes(x.rotate.0, o) + u32_bytes(x.rotate.1, o) + u32_bytes(x.rotate.2, o) + u32_bytes(x.random_rotate.0, o) + u32_bytes(x.random_rotate.1, o) + u32_bytes(x.random_rotate.2, o) + u32_bytes(x.rotate_acceleration.0, o) + u32_bytes(x.rotate_acceleration.1, o) + u32_bytes(x.rotate_acceleration.2, o) + u32_bytes(x.random_rotate_acceleration.0, o) + u32_bytes(x.random_rotate_acceleration.1, o) + u32_bytes(x.random_rotate_acceleration.2, o));
        assert(x.wire(o).subrange(48, 52) == u32_bytes(x.width, o));
        lemma_concat_split(u32_bytes(x.rotate.0, o) + u32_bytes(x.rotate.1, o) + u32_bytes(x.rotate.2, o) + u32_bytes(x.random_rotate.0, o) + u32_bytes(x.random_rotate.1, o) + u32_bytes(x.random_rotate.2, o) + u32_bytes(x.rotate_acceleration.0, o) + u32_bytes(x.rotate_acceleration.1, o) + u32_bytes(x.rotate_acceleration.2, o) + u32_bytes(x.random_rotate_acceleration.0, o) + u32_bytes(x.random_rotate_acceleration.1, o), u32_bytes(x.random_rotate_acceleration.2, o));
        lemma_subrange_of_subrange(x.wire(o), 0, 48, 0, 44);
        lemma_subrange_of_subrange(x.wire(o), 0, 48, 44, 48);
        assert(x.wire(o).subrange(0, 44) == u32_bytes(x.rotate.0, o) + u32_bytes(x.rotate.1, o) + u32_bytes(x.rotate.2, o) + u32_bytes(x.random_rotate.0, o) + u32_bytes(x.random_rotate.1, o) + u32_bytes(x.random_rotate.2, o) + u32_bytes(x.rotate_acceleration.0, o) + u32_bytes(x.rotate_acceleration.1, o) + u32_bytes(x.rotate_acceleration.2, o) + u32_bytes(x.random_rotate_acceleration.0, o) + u32_bytes(x.random_rotate_acceleration.1, o));
        assert(x.wire(o).subrange(44, 48) == u32_bytes(x.random_rotate_acceleration.2, o));
        lemma_concat_split(u32_bytes(x.rotate.0, o) + u32_bytes(x.rotate.1, o) + u32_bytes(x.rotate.2, o) + u32_bytes(x.random_rotate.0, o) + u32_bytes(x.random_rotate.1, o) + u32_bytes(x.random_rotate.2, o) + u32_bytes(x.rotate_acceleration.0, o) + u32_bytes(x.rotate_acceleration.1, o) + u32_bytes(x.rotate_acceleration.2, o) + u32_bytes(x.random_rotate_acceleration.0, o), u32_bytes(x.random_rotate_acceleration.1, o));
        lemma_subrange_of_subrange(x.wire(o), 0, 44, 0, 40);
        lemma_subrange_of_subrange(x.wire(o), 0, 44, 40, 44);
        assert(x.wire(o).subrange(0, 40) == u32_bytes(x.rotate.0, o) + u32_bytes(x.rotate.1, o) + u32_bytes(x.rotate.2, o) + u32_bytes(x.random_rotate.0, o) + u32_bytes(x.random_rotate.1, o) + u32_bytes(x.random_rotate.2, o) + u32_bytes(x.rotate_acceleration.0, o) + u32_bytes(x.rotate_acceleration.1, o) + u32_bytes(x.rotate_acceleration.2, o) + u32_bytes(x.random_rotate_acceleration.0, o));
        assert(x.wire(o).subrange(40, 44) == u32_bytes(x.random_rotate_acceleration.1, o));
        lemma_concat_split(u32_bytes(x.rotate.0, o) + u32_bytes(x.rotate.1, o) + u32_bytes(x.rotate.2, o) + u32_bytes(x.random_rotate.0, o) + u32_bytes(x.random_rotate.1, o) + u32_bytes(x.random_rotate.2, o) + u32_bytes(x.rotate_acceleration.0, o) + u32_bytes(x.rotate_acceleration.1, o) + u32_bytes(x.rotate_acceleration.2, o), u32_bytes(x.random_rotate_acceleration.0, o));
        lemma_subrange_of_subrange(x.wire(o), 0, 40, 0, 36);
        lemma_subrange_of_subrange(x.wire(o), 0, 40, 36, 40);
        assert(x.wire(o).subrange(0, 36) == u32_bytes(x.rotate.0, o) + u32_bytes(x.rotate.1, o) + u32_bytes(x.rotate.2, o) + u32_bytes(x.random_rotate.0, o) + u32_bytes(x.random_rotate.1, o) + u32_bytes(x.random_rotate.2, o) + u32_bytes(x.rotate_acceleration.0, o) + u32_bytes(x.rotate_acceleration.1, o) + u32_bytes(x.rotate_acceleration.2, o));
        assert(x.wire(o).subrange(36, 40) == u32_bytes(x.random_rotate_acceleration.0, o));
        lemma_concat_split(u32_bytes(x.rotate.0, o) + u32_bytes(x.rotate.1, o) + u32_bytes(x.rotate.2, o) + u32_bytes(x.random_rotate.0, o) + u32_bytes(x.random_rotate.1, o) + u32_bytes(x.random_rotate.2, o) + u32_bytes(x.rotate_acceleration.0, o) + u32_bytes(x.rotate_acceleration.1, o), u32_bytes(x.rotate_acceleration.2, o));
        lemma_subrange_of_subrange(x.wire(o), 0, 36, 0, 32);
        lemma_subrange_of_subrange(x.wire(o), 0, 36, 32, 36);
        assert(x.wire(o).subrange(0, 32) == u32_bytes(x.rotate.0, o) + u32_bytes(x.rotate.1, o) + u32_bytes(x.rotate.2, o) + u32_bytes(x.random_rotate.0, o) + u32_bytes(x.random_rotate.1, o) + u32_bytes(x.random_rotate.2, o) + u32_bytes(x.rotate_acceleration.0, o) + u32_bytes(x.rotate_acceleration.1, o));
        assert(x.wire(o).subrange(32, 36) == u32_bytes(x.rotate_acceleration.2, o));
        lemma_concat_split(u32_bytes(x.rotate.0, o) + u32_bytes(x.rotate.1, o) + u32_bytes(x.rotate.2, o) + u32_bytes(x.random_rotate.0, o) + u32_bytes(x.random_rotate.1, o) + u32_bytes(x.random_rotate.2, o) + u32_bytes(x.rotate_acceleration.0, o), u32_bytes(x.rotate_acceleration.1, o));
        lemma_subrange_of_subrange(x.wire(o), 0, 32, 0, 28);
        lemma_subrange_of_subrange(x.wire(o), 0, 32, 28, 32);
        assert(x.wire(o).subrange(0, 28) == u32_bytes(x.rotate.0, o) + u32_bytes(x.rotate.1, o) + u32_bytes(x.rotate.2, o) + u32_bytes(x.random_rotate.0, o) + u32_bytes(x.random_rotate.1, o) + u32_bytes(x.random_rotate.2, o) + u32_bytes(x.rotate_acceleration.0, o));
        assert(x.wire(o).subrange(28, 32) == u32_bytes(x.rotate_acceleration.1, o));
        lemma_concat_split(u32_bytes(x.rotate.0, o) + u32_bytes(x.rotate.1, o) + u32_bytes(x.rotate.2, o) + u32_bytes(x.random_rotate.0, o) + u32_bytes(x.random_rotate.1, o) + u32_bytes(x.random_rotate.2, o), u32_bytes(x.rotate_acceleration.0, o));
        lemma_subrange_of_subrange(x.wire(o), 0, 28, 0, 24);
        lemma_subrange_of_subrange(x.wire(o), 0, 28, 24, 28);
        assert(x.wire(o).subrange(0, 24) == u32_bytes(x.rotate.0, o) + u32_bytes(x.rotate.1, o) + u32_bytes(x.rotate.2, o) + u32_bytes(x.random_rotate.0, o) + u32_bytes(x.random_rotate.1, o) + u32_bytes(x.random_rotate.2, o));
        assert(x.wire(o).subrange(24, 28) == u32_bytes(x.rotate_acceleration.0, o));
        lemma_concat_split(u32_bytes(x.rotate.0, o) + u32_bytes(x.rotate.1, o) + u32_bytes(x.rotate.2, o) + u32_bytes(x.random_rotate.0, o) + u32_bytes(x.random_rotate.1, o), u32_bytes(x.random_rotate.2, o));
        lemma_subrange_of_subrange(x.wire(o), 0, 24, 0, 20);
        lemma_subrange_of_subrange(x.wire(o), 0, 24, 20, 24);
        assert(x.wire(o).subrange(0, 20) == u32_bytes(x.rotate.0, o) + u32_bytes(x.rotate.1, o) + u32_bytes(x.rotate.2, o) + u32_bytes(x.random_rotate.0, o) + u32_bytes(x.random_rotate.1, o));
        assert(x.wire(o).subrange(20, 24) == u32_bytes(x.random_rotate.2, o));
        lemma_concat_split(u32_bytes(x.rotate.0, o) + u32_bytes(x.rotate.1, o) + u32_bytes(x.rotate.2, o) + u32_bytes(x.random_rotate.0, o), u32_bytes(x.random_rotate.1, o));
        lemma_subrange_of_subrange(x.wire(o), 0, 20, 0, 16);
        lemma_subrange_of_subrange(x.wire(o), 0, 20, 16, 20);
        assert(x.wire(o).subrange(0, 16) == u32_bytes(x.rotate.0, o) + u32_bytes(x.rotate.1, o) + u32_bytes(x.rotate.2, o) + u32_bytes(x.random_rotate.0, o));
        assert(x.wire(o).subrange(16, 20) == u32_bytes(x.random_rotate.1, o));
        lemma_concat_split(u32_bytes(x.rotate.0, o) + u32_bytes(x.rotate.1, o) + u32_bytes(x.rotate.2, o), u32_bytes(x.random_rotate.0, o));
        lemma_subrange_of_subrange(x.wire(o), 0, 16, 0, 12);
        lemma_subrange_of_subrange(x.wire(o), 0, 16, 12, 16);
        assert(x.wire(o).subrange(0, 12) == u32_bytes(x.rotate.0, o) + u32_bytes(x.rotate.1, o) + u32_bytes(x.rotate.2, o));
        assert(x.wire(o).subrange(12, 16) == u32_bytes(x.random_rotate.0, o));
        lemma_concat_split(u32_bytes(x.rotate.0, o) + u32_bytes(x.rotate.1, o), u32_bytes(x.rotate.2, o));
        lemma_subrange_of_subrange(x.wire(o), 0, 12, 0, 8);
        lemma_subrange_of_subrange(x.wire(o), 0, 12, 8, 12);
        assert(x.wire(o).subrange(0, 8) == u32_bytes(x.rotate.0, o) + u32_bytes(x.rotate.1, o));
        assert(x.wire(o).subrange(8, 12) == u32_bytes(x.rotate.2, o));
        lemma_concat_split(u32_bytes(x.rotate.0, o), u32_bytes(x.rotate.1, o));
        lemma_subrange_of_subrange(x.wire(o), 0, 8, 0, 4);
        lemma_subrange_of_subrange(x.wire(o), 0, 8, 4, 8);
        assert(x.wire(o).subrange(0, 4) == u32_bytes(x.rotate.0, o));
        assert(x.wire(o).subrange(4, 8) == u32_bytes(x.rotate.1, o));
        lemma_subrange_of_subrange(data, i, i + 68, 0, 4);
        assert(data.subrange(i, i + 4) == u32_bytes(x.rotate.0, o));
        lemma_u32_at_of_bytes(data, i, x.rotate.0, o);
        lemma_subrange_of_subrange(data, i, i + 68, 4, 8);
        assert(data.subrange(i + 4, i + 8) == u32_bytes(x.rotate.1, o));
        lemma_u32_at_of_bytes(data, i + 4, x.rotate.1, o);
        lemma_subrange_of_subrange(data, i, i + 68, 8, 12);
        assert(data.subrange(i + 8, i + 12) == u32_bytes(x.rotate.2, o));
        lemma_u32_at_of_bytes(data, i + 8, x.rotate.2, o);
        lemma_subrange_of_subrange(data, i, i + 68, 12, 16);
        assert(data.subrange(i + 12, i + 16) == u32_bytes(x.random_rotate.0, o));
        lemma_u32_at_of_bytes(data, i + 12, x.random_rotate.0, o);
        lemma_subrange_of_subrange(data, i, i + 68, 16, 20);
        assert(data.subrange(i + 16, i + 20) == u32_bytes(x.random_rotate.1, o));
        lemma_u32_at_of_bytes(data, i + 16, x.random_rotate.1, o);
        lemma_subrange_of_subrange(data, i, i + 68, 20, 24);
        assert(data.subrange(i + 20, i + 24) == u32_bytes(x.random_rotate.2, o));
        lemma_u32_at_of_bytes(data, i + 20, x.random_rotate.2, o);
        lemma_subrange_of_subrange(data, i, i + 68, 24, 28);
        assert(data.subrange(i + 24, i + 28) == u32_bytes(x.rotate_acceleration.0, o));
        lemma_u32_at_of_bytes(data, i + 24, x.rotate_acceleration.0, o);
        lemma_subrange_of_subrange(data, i, i + 68, 28, 32);
        assert(data.subrange(i + 28, i + 32) == u32_bytes(x.rotate_acceleration.1, o));
        lemma_u32_at_of_bytes(data, i + 28, x.rotate_acceleration.1, o);
        lemma_subrange_of_subrange(data, i, i + 68, 32, 36);
        assert(data.subrange(i + 32, i + 36) == u32_bytes(x.rotate_acceleration.2, o));
        lemma_u32_at_of_bytes(data, i + 32, x.rotate_acceleration.2, o);
        lemma_subrange_of_subrange(data, i, i + 68, 36, 40);
        assert(data.subrange(i + 36, i + 40) == u32_bytes(x.random_rotate_acceleration.0, o));
        lemma_u32_at_of_bytes(data, i + 36, x.random_rotate_acceleration.0, o);
        lemma_subrange_of_subrange(data, i, i + 68, 40, 44);
        assert(data.subrange(i + 40, i + 44) == u32_bytes(x.random_rotate_acceleration.1, o));
        lemma_u32_at_of_bytes(data, i + 40, x.random_rotate_acceleration.1, o);
        lemma_subrange_of_subrange(data, i, i + 68, 44, 48);
        assert(data.subrange(i + 44, i + 48) == u32_bytes(x.random_rotate_acceleration.2, o));
        lemma_u32_at_of_bytes(data, i + 44, x.random_rotate_acceleration.2, o);
        lemma_subrange_of_subrange(data, i, i + 68, 48, 52);
        assert(data.subrange(i + 48, i + 52) == u32_bytes(x.width, o));
        lemma_u32_at_of_bytes(data, i + 48, x.width, o);
        lemma_subrange_of_subrange(data, i, i + 68, 52, 56);
        assert(data.subrange(i + 52, i + 56) == u32_bytes(x.height, o));
        lemma_u32_at_of_bytes(data, i + 52, x.height, o);
        lemma_subrange_of_subrange(data, i, i + 68, 56, 60);
        assert(data.subrange(i + 56, i + 60) == u32_bytes(x.random_size, o));
        lemma_u32_at_of_bytes(data, i + 56, x.random_size, o);
        lemma_subrange_of_subrange(data, i, i + 68, 60, 64);
        assert(data.subrange(i + 60, i + 64) == u32_bytes(x.grow, o));
        lemma_u32_at_of_bytes(data, i + 60, x.grow, o);
        lemma_subrange_of_subrange(data, i, i + 68, 64, 68);
        assert(data.subrange(i + 64, i + 68) == u32_bytes(x.delta_grow, o));
        lemma_u32_at_of_bytes(data, i + 64, x.delta_grow, o);
    }

    /// Decode one group at `*pos`; the caller has checked that all
    /// 68 bytes are there.
    #[verifier::rlimit(60)]
    pub fn read(data: &Vec<u8>, pos: &mut usize, o: ByteOrder) -> (g: EffectRotation)
        requires
            *old(pos) + 68 <= data@.len(),
        ensures
            *final(pos) == *old(pos) + 68,
            g == EffectRotation::decoded_at(data@, *old(pos) as int, o),
            g.wire(o) == data@.subrange(*old(pos) as int, *old(pos) + 68),
    {
        let rotate_0 = take_u32(data, pos, o);
        let rotate_1 = take_u32(data, pos, o);
        let rotate_2 = take_u32(data, pos, o);
        let random_rotate_0 = take_u32(data, pos, o);
        let random_rotate_1 = take_u32(data, pos, o);
        let random_rotate_2 = take_u32(data, pos, o);
        let rotate_acceleration_0 = take_u32(data, pos, o);
        let rotate_acceleration_1 = take_u32(data, pos, o);
        let rotate_acceleration_2 = take_u32(data, pos, o);
        let random_rotate_acceleration_0 = take_u32(data, pos, o);
        let random_rotate_acceleration_1 = take_u32(data, pos, o);
        let random_rotate_acceleration_2 = take_u32(data, pos, o);
        let width = take_u32(data, pos, o);
        let height = take_u32(data, pos, o);
        let random_size = take_u32(data, pos, o);
        let grow = take_u32(data, pos, o);
        let delta_grow = take_u32(data, pos, o);
        let g = EffectRotation {
            rotate: (rotate_0, rotate_1, rotate_2),
            random_rotate: (random_rotate_0, random_rotate_1, random_rotate_2),
            rotate_acceleration: (rotate_acceleration_0, rotate_acceleration_1, rotate_acceleration_2),
            random_rotate_acceleration: (random_rotate_acceleration_0, random_rotate_acceleration_1, random_rotate_acceleration_2),
            width,
            height,
            random_size,
            grow,
            delta_grow,
        };
        proof {
            let p = *old(pos) as int;
            lemma_concat_subrange(data@, p, p + 4, p + 8);
            lemma_concat_subrange(data@, p, p + 8, p + 12);
            lemma_concat_subrange(data@, p, p + 12, p + 16);
            lemma_concat_subrange(data@, p, p + 16, p + 20);
            lemma_concat_subrange(data@, p, p + 20, p + 24);
            lemma_concat_subrange(data@, p, p + 24, p + 28);
            lemma_concat_subrange(data@, p, p + 28, p + 32);
            lemma_concat_subrange(data@, p, p + 32, p + 36);
            lemma_concat_subrange(data@, p, p + 36, p + 40);
            lemma_concat_subrange(data@, p, p + 40, p + 44);
            lemma_concat_subrange(data@, p, p + 44, p + 48);
            lemma_concat_subrange(data@, p, p + 48, p + 52);
            lemma_concat_subrange(data@, p, p + 52, p + 56);
            lemma_concat_subrange(data@, p, p + 56, p + 60);
            lemma_concat_subrange(data@, p, p + 60, p + 64);
            lemma_concat_subrange(data@, p, p + 64, p + 68);
            assert(g.wire(o) == data@.subrange(p, p + 68));
        }
        g
    }

    /// Encode this group, appending its 68 wire bytes to `out`.
    #[verifier::rlimit(60)]
    pub fn write(&self, out: &mut Vec<u8>, o: ByteOrder)
        ensures
            final(out)@ == old(out)@ + self.wire(o),
    {
        put_u32(out, self.rotate.0, o);
        put_u32(out, self.rotate.1, o);
        put_u32(out, self.rotate.2, o);
        put_u32(out, self.random_rotate.0, o);
        put_u32(out, self.random_rotate.1, o);
        put_u32(out, self.random_rotate.2, o);
        put_u32(out, self.rotate_acceleration.0, o);
        put_u32(out, self.rotate_acceleration.1, o);
        put_u32(out, self.rotate_acceleration.2, o);
        put_u32(out, self.random_rotate_acceleration.0, o);
        put_u32(out, self.random_rotate_acceleration.1, o);
        put_u32(out, self.random_rotate_acceleration.2, o);
        put_u32(out, self.width, o);
        put_u32(out, self.height, o);
        put_u32(out, self.random_size, o);
        put_u32(out, self.grow, o);
        put_u32(out, self.delta_grow, o);
        proof {
            assert(out@ =~= old(out)@ + self.wire(o));
        }
    }
}

/// Color, fade and lifetime: base RGBA, color deltas and the timing
/// fields that drive fading, growth and animation.
#[derive(Clone, Copy, PartialEq, Eq, Debug)]
pub struct EffectShading {
    pub rgba: (u8, u8, u8, u8),
    pub delta_color: (u32, u32, u32, u32),
    pub delta_color_attack: u16,
    pub delta_color_start_frame: u16,
    pub unknown_xb4: u16,
    pub delta_size_start_frame: u16,
    pub life_time: u16,
    pub animation_speed: u32,
    pub unknown_xbe: u16,
    pub release_time: u8,
    pub blend: u16,
    pub simulation_type: u8,
    pub simulation_power: u8,
    pub mask_texture_id: u8,
    pub value_in: u8,
    pub value_out: u8,
}

impl EffectShading {
    /// The 44 wire bytes of this group in byte order `o`.
    pub open spec fn wire(self, o: ByteOrder) -> Seq<u8> {
        u8_bytes(self.rgba.0) + u8_bytes(self.rgba.1) + u8_bytes(self.rgba.2)
            + u8_bytes(self.rgba.3) + u32_bytes(self.delta_color.0, o)
            + u32_bytes(self.delta_color.1, o) + u32_bytes(self.delta_color.2, o)
            + u32_bytes(self.delta_color.3, o) + u16_bytes(self.delta_color_attack, o)
            + u16_bytes(self.delta_color_start_frame, o) + u16_bytes(self.unknown_xb4, o)
            + u16_bytes(self.delta_size_start_frame, o) + u16_bytes(self.life_time, o)
            + u32_bytes(self.animation_speed, o) + u16_bytes(self.unknown_xbe, o)
            + u8_bytes(self.release_time) + u16_bytes(self.blend, o)
            + u8_bytes(self.simulation_type) + u8_bytes(self.simulation_power)
            + u8_bytes(self.mask_texture_id) + u8_bytes(self.value_in)
            + u8_bytes(self.value_out)
    }

    /// This group always occupies 44 wire bytes.
    pub proof fn lemma_wire_len(self, o: ByteOrder)
        ensures
            self.wire(o).len() == 44,
    {
    }

    /// The group stored at byte position `i` of `data` in byte order `o`.
    pub open spec fn decoded_at(data: Seq<u8>, i: int, o: ByteOrder) -> EffectShading {
        EffectShading {
            rgba: (
                data[i],
                data[i + 1],
                data[i + 2],
                data[i + 3],
            ),
            delta_color: (
                u32_at(data, i + 4, o),
                u32_at(data, i + 8, o),
                u32_at(data, i + 12, o),
                u32_at(data, i + 16, o),
            ),
            delta_color_attack: u16_at(data, i + 20, o),
            delta_color_start_frame: u16_at(data, i + 22, o),
            unknown_xb4: u16_at(data, i + 24, o),
            delta_size_start_frame: u16_at(data, i + 26, o),
            life_time: u16_at(data, i + 28, o),
            animation_speed: u32_at(data, i + 30, o),
            unknown_xbe: u16_at(data, i + 34, o),
            release_time: data[i + 36],
            blend: u16_at(data, i + 37, o),
            simulation_type: data[i + 39],
            simulation_power: data[i + 40],
            mask_texture_id: data[i + 41],
            value_in: data[i + 42],
            value_out: data[i + 43],
        }
    }

    /// Decoding any window of `data` that holds this record's wire bytes
    /// yields the record back: the codec loses nothing.
    #[verifier::rlimit(100)]
    pub proof fn lemma_decoded_of_wire(data: Seq<u8>, i: int, x: EffectShading, o: ByteOrder)
        requires
            0 <= i,
            i + 44 <= data.len(),
            data.subrange(i, i + 44) == x.wire(o),
        ensures
            EffectShading::decoded_at(data, i, o) == x,
    {
        assert(u8_bytes(x.rgba.0).len() == 1);
        assert(u8_bytes(x.rgba.1).len() == 1);
        assert(u8_bytes(x.rgba.2).len() == 1);
        assert(u8_bytes(x.rgba.3).len() == 1);
        assert(u32_bytes(x.delta_color.0, o).len() == 4);
        assert(u32_bytes(x.delta_color.1, o).len() == 4);
        assert(u32_bytes(x.delta_color.2, o).len() == 4);
        assert(u32_bytes(x.delta_color.3, o).len() == 4);
        assert(u16_bytes(x.delta_color_attack, o).len() == 2);
        assert(u16_bytes(x.delta_color_start_frame, o).len() == 2);
        assert(u16_bytes(x.unknown_xb4, o).len() == 2);
        assert(u16_bytes(x.delta_size_start_frame, o).len() == 2);
        assert(u16_bytes(x.life_time, o).len() == 2);
        assert(u32_bytes(x.animation_speed, o).len() == 4);
        assert(u16_bytes(x.unknown_xbe, o).len() == 2);
        assert(u8_bytes(x.release_time).len() == 1);
        assert(u16_bytes(x.blend, o).len() == 2);
        assert(u8_bytes(x.simulation_type).len() == 1);
        assert(u8_bytes(x.simulation_power).len() == 1);
        assert(u8_bytes(x.mask_texture_id).len() == 1);
        assert(u8_bytes(x.value_in).len() == 1);
        assert(u8_bytes(x.value_out).len() == 1);
        assert(x.wire(o).subrange(0, 44) =~= x.wire(o));
        lemma_concat_split(u8_bytes(x.rgba.0) + u8_bytes(x.rgba.1) + u8_bytes(x.rgba.2) + u8_bytes(x.rgba.3) + u32_bytes(x.delta_color.0, o) + u32_bytes(x.delta_color.1, o) + u32_bytes(x.delta_color.2, o) + u32_bytes(x.delta_color.3, o) + u16_bytes(x.delta_color_attack, o) + u16_bytes(x.delta_color_start_frame, o) + u16_bytes(x.unknown_xb4, o) + u16_bytes(x.delta_size_start_frame, o) + u16_bytes(x.life_time, o) + u32_bytes(x.animation_speed, o) + u16_bytes(x.unknown_xbe, o) + u8_bytes(x.release_time) + u16_bytes(x.blend, o) + u8_bytes(x.simulation_type) + u8_bytes(x.simulation_power) + u8_bytes(x.mask_texture_id) + u8_bytes(x.value_in), u8_bytes(x.value_out));
        assert(x.wire(o).subrange(0, 43) == u8_bytes(x.rgba.0) + u8_bytes(x.rgba.1) + u8_bytes(x.rgba.2) + u8_bytes(x.rgba.3) + u32_bytes(x.delta_color.0, o) + u32_bytes(x.delta_color.1, o) + u32_bytes(x.delta_color.2, o) + u32_bytes(x.delta_color.3, o) + u16_bytes(x.delta_color_attack, o) + u16_bytes(x.delta_color_start_frame, o) + u16_bytes(x.unknown_xb4, o) + u16_bytes(x.delta_size_start_frame, o) + u16_bytes(x.life_time, o) + u32_bytes(x.animation_speed, o) + u16_bytes(x.unknown_xbe, o) + u8_bytes(x.release_time) + u16_bytes(x.blend, o) + u8_bytes(x.simulation_type) + u8_bytes(x.simulation_power) + u8_bytes(x.mask_texture_id) + u8_bytes(x.value_in));
        assert(x.wire(o).subrange(43, 44) == u8_bytes(x.value_out));
        lemma_concat_split(u8_bytes(x.rgba.0) + u8_bytes(x.rgba.1) + u8_bytes(x.rgba.2) + u8_bytes(x.rgba.3) + u32_bytes(x.delta_color.0, o) + u32_bytes(x.delta_color.1, o) + u32_bytes(x.delta_color.2, o) + u32_bytes(x.delta_color.3, o) + u16_bytes(x.delta_color_attack, o) + u16_bytes(x.delta_color_start_frame, o) + u16_bytes(x.unknown_xb4, o) + u16_bytes(x.delta_size_start_frame, o) + u16_bytes(x.life_time, o) + u32_bytes(x.animation_speed, o) + u16_bytes(x.unknown_xbe, o) + u8_bytes(x.release_time) + u16_bytes(x.blend, o) + u8_bytes(x.simulation_type) + u8_bytes(x.simulation_power) + u8_bytes(x.mask_texture_id), u8_bytes(x.value_in));
        lemma_subrange_of_subrange(x.wire(o), 0, 43, 0, 42);
        lemma_subrange_of_subrange(x.wire(o), 0, 43, 42, 43);
        assert(x.wire(o).subrange(0, 42) == u8_bytes(x.rgba.0) + u8_bytes(x.rgba.1) + u8_bytes(x.rgba.2) + u8_bytes(x.rgba.3) + u32_bytes(x.delta_color.0, o) + u32_bytes(x.delta_color.1, o) + u32_bytes(x.delta_color.2, o) + u32_bytes(x.delta_color.3, o) + u16_bytes(x.delta_color_attack, o) + u16_bytes(x.delta_color_start_frame, o) + u16_bytes(x.unknown_xb4, o) + u16_bytes(x.delta_size_start_frame, o) + u16_bytes(x.life_time, o) + u32_bytes(x.animation_speed, o) + u16_bytes(x.unknown_xbe, o) + u8_bytes(x.release_time) + u16_bytes(x.blend, o) + u8_bytes(x.simulation_type) + u8_bytes(x.simulation_power) + u8_bytes(x.mask_texture_id));
        assert(x.wire(o).subrange(42, 43) == u8_bytes(x.value_in));
        lemma_concat_split(u8_bytes(x.rgba.0) + u8_bytes(x.rgba.1) + u8_bytes(x.rgba.2) + u8_bytes(x.rgba.3) + u32_bytes(x.delta_color.0, o) + u32_bytes(x.delta_color.1, o) + u32_bytes(x.delta_color.2, o) + u32_bytes(x.delta_color.3, o) + u16_bytes(x.delta_color_attack, o) + u16_bytes(x.delta_color_start_frame, o) + u16_bytes(x.unknown_xb4, o) + u16_bytes(x.delta_size_start_frame, o) + u16_bytes(x.life_time, o) + u32_bytes(x.animation_speed, o) + u16_bytes(x.unknown_xbe, o) + u8_bytes(x.release_time) + u16_bytes(x.blend, o) + u8_bytes(x.simulation_type) + u8_bytes(x.simulation_power), u8_bytes(x.mask_texture_id));
        lemma_subrange_of_subrange(x.wire(o), 0, 42, 0, 41);
        lemma_subrange_of_subrange(x.wire(o), 0, 42, 41, 42);
        assert(x.wire(o).subrange(0, 41) == u8_bytes(x.rgba.0) + u8_bytes(x.rgba.1) + u8_bytes(x.rgba.2) + u8_bytes(x.rgba.3) + u32_bytes(x.delta_color.0, o) + u32_bytes(x.delta_color.1, o) + u32_bytes(x.delta_color.2, o) + u32_bytes(x.delta_color.3, o) + u16_bytes(x.delta_color_attack, o) + u16_bytes(x.delta_color_start_frame, o) + u16_bytes(x.unknown_xb4, o) + u16_bytes(x.delta_size_start_frame, o) + u16_bytes(x.life_time, o) + u32_bytes(x.animation_speed, o) + u16_bytes(x.unknown_xbe, o) + u8_bytes(x.release_time) + u16_bytes(x.blend, o) + u8_bytes(x.simulation_type) + u8_bytes(x.simulation_power));
        assert(x.wire(o).subrange(41, 42) == u8_bytes(x.mask_texture_id));
        lemma_concat_split(u8_bytes(x.rgba.0) + u8_bytes(x.rgba.1) + u8_bytes(x.rgba.2) + u8_bytes(x.rgba.3) + u32_bytes(x.delta_color.0, o) + u32_bytes(x.delta_color.1, o) + u32_bytes(x.delta_color.2, o) + u32_bytes(x.delta_color.3, o) + u16_bytes(x.delta_color_attack, o) + u16_bytes(x.delta_color_start_frame, o) + u16_bytes(x.unknown_xb4, o) + u16_bytes(x.delta_size_start_frame, o) + u16_bytes(x.life_time, o) + u32_bytes(x.animation_speed, o) + u16_bytes(x.unknown_xbe, o) + u8_bytes(x.release_time) + u16_bytes(x.blend, o) + u8_bytes(x.simulation_type), u8_bytes(x.simulation_power));
        lemma_subrange_of_subrange(x.wire(o), 0, 41, 0, 40);
        lemma_subrange_of_subrange(x.wire(o), 0, 41, 40, 41);
        assert(x.wire(o).subrange(0, 40) == u8_bytes(x.rgba.0) + u8_bytes(x.rgba.1) + u8_bytes(x.rgba.2) + u8_bytes(x.rgba.3) + u32_bytes(x.delta_color.0, o) + u32_bytes(x.delta_color.1, o) + u32_bytes(x.delta_color.2, o) + u32_bytes(x.delta_color.3, o) + u16_bytes(x.delta_color_attack, o) + u16_bytes(x.delta_color_start_frame, o) + u16_bytes(x.unknown_xb4, o) + u16_bytes(x.delta_size_start_frame, o) + u16_bytes(x.life_time, o) + u32_bytes(x.animation_speed, o) + u16_bytes(x.unknown_xbe, o) + u8_bytes(x.release_time) + u16_bytes(x.blend, o) + u8_bytes(x.simulation_type));
        assert(x.wire(o).subrange(40, 41) == u8_bytes(x.simulation_power));
        lemma_concat_split(u8_bytes(x.rgba.0) + u8_bytes(x.rgba.1) + u8_bytes(x.rgba.2) + u8_bytes(x.rgba.3) + u32_bytes(x.delta_color.0, o) + u32_bytes(x.delta_color.1, o) + u32_bytes(x.delta_color.2, o) + u32_bytes(x.delta_color.3, o) + u16_bytes(x.delta_color_attack, o) + u16_bytes(x.delta_color_start_frame, o) + u16_bytes(x.unknown_xb4, o) + u16_bytes(x.delta_size_start_frame, o) + u16_bytes(x.life_time, o) + u32_bytes(x.animation_speed, o) + u16_bytes(x.unknown_xbe, o) + u8_bytes(x.release_time) + u16_bytes(x.blend, o), u8_bytes(x.simulation_type));
        lemma_subrange_of_subrange(x.wire(o), 0, 40, 0, 39);
        lemma_subrange_of_subrange(x.wire(o), 0, 40, 39, 40);
        assert(x.wire(o).subrange(0, 39) == u8_bytes(x.rgba.0) + u8_bytes(x.rgba.1) + u8_bytes(x.rgba.2) + u8_bytes(x.rgba.3) + u32_bytes(x.delta_color.0, o) + u32_bytes(x.delta_color.1, o) + u32_bytes(x.delta_color.2, o) + u32_bytes(x.delta_color.3, o) + u16_bytes(x.delta_color_attack, o) + u16_bytes(x.delta_color_start_frame, o) + u16_bytes(x.unknown_xb4, o) + u16_bytes(x.delta_size_start_frame, o) + u16_bytes(x.life_time, o) + u32_bytes(x.animation_speed, o) + u16_bytes(x.unknown_xbe, o) + u8_bytes(x.release_time) + u16_bytes(x.blend, o));
        assert(x.wire(o).subrange(39, 40) == u8_bytes(x.simulation_type));
        lemma_concat_split(u8_bytes(x.rgba.0) + u8_bytes(x.rgba.1) + u8_bytes(x.rgba.2) + u8_bytes(x.rgba.3) + u32_bytes(x.delta_color.0, o) + u32_bytes(x.delta_color.1, o) + u32_bytes(x.delta_color.2, o) + u32_bytes(x.delta_color.3, o) + u16_bytes(x.delta_color_attack, o) + u16_bytes(x.delta_color_start_frame, o) + u16_bytes(x.unknown_xb4, o) + u16_bytes(x.delta_size_start_frame, o) + u16_bytes(x.life_time, o) + u32_bytes(x.animation_speed, o) + u16_bytes(x.unknown_xbe, o) + u8_bytes(x.release_time), u16_bytes(x.blend, o));
        lemma_subrange_of_subrange(x.wire(o), 0, 39, 0, 37);
        lemma_subrange_of_subrange(x.wire(o), 0, 39, 37, 39);
        assert(x.wire(o).subrange(0, 37) == u8_bytes(x.rgba.0) + u8_bytes(x.rgba.1) + u8_bytes(x.rgba.2) + u8_bytes(x.rgba.3) + u32_bytes(x.delta_color.0, o) + u32_bytes(x.delta_color.1, o) + u32_bytes(x.delta_color.2, o) + u32_bytes(x.delta_color.3, o) + u16_bytes(x.delta_color_attack, o) + u16_bytes(x.delta_color_start_frame, o) + u16_bytes(x.unknown_xb4, o) + u16_bytes(x.delta_size_start_frame, o) + u16_bytes(x.life_time, o) + u32_bytes(x.animation_speed, o) + u16_bytes(x.unknown_xbe, o) + u8_bytes(x.release_time));
        assert(x.wire(o).subrange(37, 39) == u16_bytes(x.blend, o));
        lemma_concat_split(u8_bytes(x.rgba.0) + u8_bytes(x.rgba.1) + u8_bytes(x.rgba.2) + u8_bytes(x.rgba.3) + u32_bytes(x.delta_color.0, o) + u32_bytes(x.delta_color.1, o) + u32_bytes(x.delta_color.2, o) + u32_bytes(x.delta_color.3, o) + u16_bytes(x.delta_color_attack, o) + u16_bytes(x.delta_color_start_frame, o) + u16_bytes(x.unknown_xb4, o) + u16_bytes(x.delta_size_start_frame, o) + u16_bytes(x.life_time, o) + u32_bytes(x.animation_speed, o) + u16_bytes(x.unknown_xbe, o), u8_bytes(x.release_time));
        lemma_subrange_of_subrange(x.wire(o), 0, 37, 0, 36);
        lemma_subrange_of_subrange(x.wire(o), 0, 37, 36, 37);
        assert(x.wire(o).subrange(0, 36) == u8_bytes(x.rgba.0) + u8_bytes(x.rgba.1) + u8_bytes(x.rgba.2) + u8_bytes(x.rgba.3) + u32_bytes(x.delta_color.0, o) + u32_bytes(x.delta_color.1, o) + u32_bytes(x.delta_color.2, o) + u32_bytes(x.delta_color.3, o) + u16_bytes(x.delta_color_attack, o) + u16_bytes(x.delta_color_start_frame, o) + u16_bytes(x.unknown_xb4, o) + u16_bytes(x.delta_size_start_frame, o) + u16_bytes(x.life_time, o) + u32_bytes(x.animation_speed, o) + u16_bytes(x.unknown_xbe, o));
        assert(x.wire(o).subrange(36, 37) == u8_bytes(x.release_time));
        lemma_concat_split(u8_bytes(x.rgba.0) + u8_bytes(x.rgba.1) + u8_bytes(x.rgba.2) + u8_bytes(x.rgba.3) + u32_bytes(x.delta_color.0, o) + u32_bytes(x.delta_color.1, o) + u32_bytes(x.delta_color.2, o) + u32_bytes(x.delta_color.3, o) + u16_bytes(x.delta_color_attack, o) + u16_bytes(x.delta_color_start_frame, o) + u16_bytes(x.unknown_xb4, o) + u16_bytes(x.delta_size_start_frame, o) + u16_bytes(x.life_time, o) + u32_bytes(x.animation_speed, o), u16_bytes(x.unknown_xbe, o));
        lemma_subrange_of_subrange(x.wire(o), 0, 36, 0, 34);
        lemma_subrange_of_subrange(x.wire(o), 0, 36, 34, 36);
        assert(x.wire(o).subrange(0, 34) == u8_bytes(x.rgba.0) + u8_bytes(x.rgba.1) + u8_bytes(x.rgba.2) + u8_bytes(x.rgba.3) + u32_bytes(x.delta_color.0, o) + u32_bytes(x.delta_color.1, o) + u32_bytes(x.delta_color.2, o) + u32_bytes(x.delta_color.3, o) + u16_bytes(x.delta_color_attack, o) + u16_bytes(x.delta_color_start_frame, o) + u16_bytes(x.unknown_xb4, o) + u16_bytes(x.delta_size_start_frame, o) + u16_bytes(x.life_time, o) + u32_bytes(x.animation_speed, o));
        assert(x.wire(o).subrange(34, 36) == u16_bytes(x.unknown_xbe, o));
        lemma_concat_split(u8_bytes(x.rgba.0) + u8_bytes(x.rgba.1) + u8_bytes(x.rgba.2) + u8_bytes(x.rgba.3) + u32_bytes(x.delta_color.0, o) + u32_bytes(x.delta_color.1, o) + u32_bytes(x.delta_color.2, o) + u32_bytes(x.delta_color.3, o) + u16_bytes(x.delta_color_attack, o) + u16_bytes(x.delta_color_start_frame, o) + u16_bytes(x.unknown_xb4, o) + u16_bytes(x.delta_size_start_frame, o) + u16_bytes(x.life_time, o), u32_bytes(x.animation_speed, o));
        lemma_subrange_of_subrange(x.wire(o), 0, 34, 0, 30);
        lemma_subrange_of_subrange(x.wire(o), 0, 34, 30, 34);
        assert(x.wire(o).subrange(0, 30) == u8_bytes(x.rgba.0) + u8_bytes(x.rgba.1) + u8_bytes(x.rgba.2) + u8_bytes(x.rgba.3) + u32_bytes(x.delta_color.0, o) + u32_bytes(x.delta_color.1, o) + u32_bytes(x.delta_color.2, o) + u32_bytes(x.delta_color.3, o) + u16_bytes(x.delta_color_attack, o) + u16_bytes(x.delta_color_start_frame, o) + u16_bytes(x.unknown_xb4, o) + u16_bytes(x.delta_size_start_frame, o) + u16_bytes(x.life_time, o));
        assert(x.wire(o).subrange(30, 34) == u32_bytes(x.animation_speed, o));
        lemma_concat_split(u8_bytes(x.rgba.0) + u8_bytes(x.rgba.1) + u8_bytes(x.rgba.2) + u8_bytes(x.rgba.3) + u32_bytes(x.delta_color.0, o) + u32_bytes(x.delta_color.1, o) + u32_bytes(x.delta_color.2, o) + u32_bytes(x.delta_color.3, o) + u16_bytes(x.delta_color_attack, o) + u16_bytes(x.delta_color_start_frame, o) + u16_bytes(x.unknown_xb4, o) + u16_bytes(x.delta_size_start_frame, o), u16_bytes(x.life_time, o));
        lemma_subrange_of_subrange(x.wire(o), 0, 30, 0, 28);
        lemma_subrange_of_subrange(x.wire(o), 0, 30, 28, 30);
        assert(x.wire(o).subrange(0, 28) == u8_bytes(x.rgba.0) + u8_bytes(x.rgba.1) + u8_bytes(x.rgba.2) + u8_bytes(x.rgba.3) + u32_bytes(x.delta_color.0, o) + u32_bytes(x.delta_color.1, o) + u32_bytes(x.delta_color.2, o) + u32_bytes(x.delta_color.3, o) + u16_bytes(x.delta_color_attack, o) + u16_bytes(x.delta_color_start_frame, o) + u16_bytes(x.unknown_xb4, o) + u16_bytes(x.delta_size_start_frame, o));
        assert(x.wire(o).subrange(28, 30) == u16_bytes(x.life_time, o));
        lemma_concat_split(u8_bytes(x.rgba.0) + u8_bytes(x.rgba.1) + u8_bytes(x.rgba.2) + u8_bytes(x.rgba.3) + u32_bytes(x.delta_color.0, o) + u32_bytes(x.delta_color.1, o) + u32_bytes(x.delta_color.2, o) + u32_bytes(x.delta_color.3, o) + u16_bytes(x.delta_color_attack, o) + u16_bytes(x.delta_color_start_frame, o) + u16_bytes(x.unknown_xb4, o), u16_bytes(x.delta_size_start_frame, o));
        lemma_subrange_of_subrange(x.wire(o), 0, 28, 0, 26);
        lemma_subrange_of_subrange(x.wire(o), 0, 28, 26, 28);
        assert(x.wire(o).subrange(0, 26) == u8_bytes(x.rgba.0) + u8_bytes(x.rgba.1) + u8_bytes(x.rgba.2) + u8_bytes(x.rgba.3) + u32_bytes(x.delta_color.0, o) + u32_bytes(x.delta_color.1, o) + u32_bytes(x.delta_color.2, o) + u32_bytes(x.delta_color.3, o) + u16_bytes(x.delta_color_attack, o) + u16_bytes(x.delta_color_start_frame, o) + u16_bytes(x.unknown_xb4, o));
        assert(x.wire(o).subrange(26, 28) == u16_bytes(x.delta_size_start_frame, o));
        lemma_concat_split(u8_bytes(x.rgba.0) + u8_bytes(x.rgba.1) + u8_bytes(x.rgba.2) + u8_bytes(x.rgba.3) + u32_bytes(x.delta_color.0, o) + u32_bytes(x.delta_color.1, o) + u32_bytes(x.delta_color.2, o) + u32_bytes(x.delta_color.3, o) + u16_bytes(x.delta_color_attack, o) + u16_bytes(x.delta_color_start_frame, o), u16_bytes(x.unknown_xb4, o));
        lemma_subrange_of_subrange(x.wire(o), 0, 26, 0, 24);
        lemma_subrange_of_subrange(x.wire(o), 0, 26, 24, 26);
        assert(x.wire(o).subrange(0, 24) == u8_bytes(x.rgba.0) + u8_bytes(x.rgba.1) + u8_bytes(x.rgba.2) + u8_bytes(x.rgba.3) + u32_bytes(x.delta_color.0, o) + u32_bytes(x.delta_color.1, o) + u32_bytes(x.delta_color.2, o) + u32_bytes(x.delta_color.3, o) + u16_bytes(x.delta_color_attack, o) + u16_bytes(x.delta_color_start_frame, o));
        assert(x.wire(o).subrange(24, 26) == u16_bytes(x.unknown_xb4, o));
        lemma_concat_split(u8_bytes(x.rgba.0) + u8_bytes(x.rgba.1) + u8_bytes(x.rgba.2) + u8_bytes(x.rgba.3) + u32_bytes(x.delta_color.0, o) + u32_bytes(x.delta_color.1, o) + u32_bytes(x.delta_color.2, o) + u32_bytes(x.delta_color.3, o) + u16_bytes(x.delta_color_attack, o), u16_bytes(x.delta_color_start_frame, o));
        lemma_subrange_of_subrange(x.wire(o), 0, 24, 0, 22);
        lemma_subrange_of_subrange(x.wire(o), 0, 24, 22, 24);
        assert(x.wire(o).subrange(0, 22) == u8_bytes(x.rgba.0) + u8_bytes(x.rgba.1) + u8_bytes(x.rgba.2) + u8_bytes(x.rgba.3) + u32_bytes(x.delta_color.0, o) + u32_bytes(x.delta_color.1, o) + u32_bytes(x.delta_color.2, o) + u32_bytes(x.delta_color.3, o) + u16_bytes(x.delta_color_attack, o));
        assert(x.wire(o).subrange(22, 24) == u16_bytes(x.delta_color_start_frame, o));
        lemma_concat_split(u8_bytes(x.rgba.0) + u8_bytes(x.rgba.1) + u8_bytes(x.rgba.2) + u8_bytes(x.rgba.3) + u32_bytes(x.delta_color.0, o) + u32_bytes(x.delta_color.1, o) + u32_bytes(x.delta_color.2, o) + u32_bytes(x.delta_color.3, o), u16_bytes(x.delta_color_attack, o));
        lemma_subrange_of_subrange(x.wire(o), 0, 22, 0, 20);
        lemma_subrange_of_subrange(x.wire(o), 0, 22, 20, 22);
        assert(x.wire(o).subrange(0, 20) == u8_bytes(x.rgba.0) + u8_bytes(x.rgba.1) + u8_bytes(x.rgba.2) + u8_bytes(x.rgba.3) + u32_bytes(x.delta_color.0, o) + u32_bytes(x.delta_color.1, o) + u32_bytes(x.delta_color.2, o) + u32_bytes(x.delta_color.3, o));
        assert(x.wire(o).subrange(20, 22) == u16_bytes(x.delta_color_attack, o));
        lemma_concat_split(u8_bytes(x.rgba.0) + u8_bytes(x.rgba.1) + u8_bytes(x.rgba.2) + u8_bytes(x.rgba.3) + u32_bytes(x.delta_color.0, o) + u32_bytes(x.delta_color.1, o) + u32_bytes(x.delta_color.2, o), u32_bytes(x.delta_color.3, o));
        lemma_subrange_of_subrange(x.wire(o), 0, 20, 0, 16);
        lemma_subrange_of_subrange(x.wire(o), 0, 20, 16, 20);
        assert(x.wire(o).subrange(0, 16) == u8_bytes(x.rgba.0) + u8_bytes(x.rgba.1) + u8_bytes(x.rgba.2) + u8_bytes(x.rgba.3) + u32_bytes(x.delta_color.0, o) + u32_bytes(x.delta_color.1, o) + u32_bytes(x.delta_color.2, o));
        assert(x.wire(o).subrange(16, 20) == u32_bytes(x.delta_color.3, o));
        lemma_concat_split(u8_bytes(x.rgba.0) + u8_bytes(x.rgba.1) + u8_bytes(x.rgba.2) + u8_bytes(x.rgba.3) + u32_bytes(x.delta_color.0, o) + u32_bytes(x.delta_color.1, o), u32_bytes(x.delta_color.2, o));
        lemma_subrange_of_subrange(x.wire(o), 0, 16, 0, 12);
        lemma_subrange_of_subrange(x.wire(o), 0, 16, 12, 16);
        assert(x.wire(o).subrange(0, 12) == u8_bytes(x.rgba.0) + u8_bytes(x.rgba.1) + u8_bytes(x.rgba.2) + u8_bytes(x.rgba.3) + u32_bytes(x.delta_color.0, o) + u32_bytes(x.delta_color.1, o));
        assert(x.wire(o).subrange(12, 16) == u32_bytes(x.delta_color.2, o));
        lemma_concat_split(u8_bytes(x.rgba.0) + u8_bytes(x.rgba.1) + u8_bytes(x.rgba.2) + u8_bytes(x.rgba.3) + u32_bytes(x.delta_color.0, o), u32_bytes(x.delta_color.1, o));
        lemma_subrange_of_subrange(x.wire(o), 0, 12, 0, 8);
        lemma_subrange_of_subrange(x.wire(o), 0, 12, 8, 12);
        assert(x.wire(o).subrange(0, 8) == u8_bytes(x.rgba.0) + u8_bytes(x.rgba.1) + u8_bytes(x.rgba.2) + u8_bytes(x.rgba.3) + u32_bytes(x.delta_color.0, o));
        assert(x.wire(o).subrange(8, 12) == u32_bytes(x.delta_color.1, o));
        lemma_concat_split(u8_bytes(x.rgba.0) + u8_bytes(x.rgba.1) + u8_bytes(x.rgba.2) + u8_bytes(x.rgba.3), u32_bytes(x.delta_color.0, o));
        lemma_subrange_of_subrange(x.wire(o), 0, 8, 0, 4);
        lemma_subrange_of_subrange(x.wire(o), 0, 8, 4, 8);
        assert(x.wire(o).subrange(0, 4) == u8_bytes(x.rgba.0) + u8_bytes(x.rgba.1) + u8_bytes(x.rgba.2) + u8_bytes(x.rgba.3));
        assert(x.wire(o).subrange(4, 8) == u32_bytes(x.delta_color.0, o));
        lemma_concat_split(u8_bytes(x.rgba.0) + u8_bytes(x.rgba.1) + u8_bytes(x.rgba.2), u8_bytes(x.rgba.3));
        lemma_subrange_of_subrange(x.wire(o), 0, 4, 0, 3);
        lemma_subrange_of_subrange(x.wire(o), 0, 4, 3, 4);
        assert(x.wire(o).subrange(0, 3) == u8_bytes(x.rgba.0) + u8_bytes(x.rgba.1) + u8_bytes(x.rgba.2));
        assert(x.wire(o).subrange(3, 4) == u8_bytes(x.rgba.3));
        lemma_concat_split(u8_bytes(x.rgba.0) + u8_bytes(x.rgba.1), u8_bytes(x.rgba.2));
        lemma_subrange_of_subrange(x.wire(o), 0, 3, 0, 2);
        lemma_subrange_of_subrange(x.wire(o), 0, 3, 2, 3);
        assert(x.wire(o).subrange(0, 2) == u8_bytes(x.rgba.0) + u8_bytes(x.rgba.1));
        assert(x.wire(o).subrange(2, 3) == u8_bytes(x.rgba.2));
        lemma_concat_split(u8_bytes(x.rgba.0), u8_bytes(x.rgba.1));
        lemma_subrange_of_subrange(x.wire(o), 0, 2, 0, 1);
        lemma_subrange_of_subrange(x.wire(o), 0, 2, 1, 2);
        assert(x.wire(o).subrange(0, 1) == u8_bytes(x.rgba.0));
        assert(x.wire(o).subrange(1, 2) == u8_bytes(x.rgba.1));
        lemma_subrange_of_subrange(data, i, i + 44, 0, 1);
        assert(data.subrange(i, i + 1) == u8_bytes(x.rgba.0));
        lemma_u8_at_of_bytes(data, i, x.rgba.0);
        lemma_subrange_of_subrange(data, i, i + 44, 1, 2);
        assert(data.subrange(i + 1, i + 2) == u8_bytes(x.rgba.1));
        lemma_u8_at_of_bytes(data, i + 1, x.rgba.1);
        lemma_subrange_of_subrange(data, i, i + 44, 2, 3);
        assert(data.subrange(i + 2, i + 3) == u8_bytes(x.rgba.2));
        lemma_u8_at_of_bytes(data, i + 2, x.rgba.2);
        lemma_subrange_of_subrange(data, i, i + 44, 3, 4);
        assert(data.subrange(i + 3, i + 4) == u8_bytes(x.rgba.3));
        lemma_u8_at_of_bytes(data, i + 3, x.rgba.3);
        lemma_subrange_of_subrange(data, i, i + 44, 4, 8);
        assert(data.subrange(i + 4, i + 8) == u32_bytes(x.delta_color.0, o));
        lemma_u32_at_of_bytes(data, i + 4, x.delta_color.0, o);
        lemma_subrange_of_subrange(data, i, i + 44, 8, 12);
        assert(data.subrange(i + 8, i + 12) == u32_bytes(x.delta_color.1, o));
        lemma_u32_at_of_bytes(data, i + 8, x.delta_color.1, o);
        lemma_subrange_of_subrange(data, i, i + 44, 12, 16);
        assert(data.subrange(i + 12, i + 16) == u32_bytes(x.delta_color.2, o));
        lemma_u32_at_of_bytes(data, i + 12, x.delta_color.2, o);
        lemma_subrange_of_subrange(data, i, i + 44, 16, 20);
        assert(data.subrange(i + 16, i + 20) == u32_bytes(x.delta_color.3, o));
        lemma_u32_at_of_bytes(data, i + 16, x.delta_color.3, o);
        lemma_subrange_of_subrange(data, i, i + 44, 20, 22);
        assert(data.subrange(i + 20, i + 22) == u16_bytes(x.delta_color_attack, o));
        lemma_u16_at_of_bytes(data, i + 20, x.delta_color_attack, o);
        lemma_subrange_of_subrange(data, i, i + 44, 22, 24);
        assert(data.subrange(i + 22, i + 24) == u16_bytes(x.delta_color_start_frame, o));
        lemma_u16_at_of_bytes(data, i + 22, x.delta_color_start_frame, o);
        lemma_subrange_of_subrange(data, i, i + 44, 24, 26);
        assert(data.subrange(i + 24, i + 26) == u16_bytes(x.unknown_xb4, o));
        lemma_u16_at_of_bytes(data, i + 24, x.unknown_xb4, o);
        lemma_subrange_of_subrange(data, i, i + 44, 26, 28);
        assert(data.subrange(i + 26, i + 28) == u16_bytes(x.delta_size_start_frame, o));
        lemma_u16_at_of_bytes(data, i + 26, x.delta_size_start_frame, o);
        lemma_subrange_of_subrange(data, i, i + 44, 28, 30);
        assert(data.subrange(i + 28, i + 30) == u16_bytes(x.life_time, o));
        lemma_u16_at_of_bytes(data, i + 28, x.life_time, o);
        lemma_subrange_of_subrange(data, i, i + 44, 30, 34);
        assert(data.subrange(i + 30, i + 34) == u32_bytes(x.animation_speed, o));
        lemma_u32_at_of_bytes(data, i + 30, x.animation_speed, o);
        lemma_subrange_of_subrange(data, i, i + 44, 34, 36);
        assert(data.subrange(i + 34, i + 36) == u16_bytes(x.unknown_xbe, o));
        lemma_u16_at_of_bytes(data, i + 34, x.unknown_xbe, o);
        lemma_subrange_of_subrange(data, i, i + 44, 36, 37);
        assert(data.subrange(i + 36, i + 37) == u8_bytes(x.release_time));
        lemma_u8_at_of_bytes(data, i + 36, x.release_time);
        lemma_subrange_of_subrange(data, i, i + 44, 37, 39);
        assert(data.subrange(i + 37, i + 39) == u16_bytes(x.blend, o));
        lemma_u16_at_of_bytes(data, i + 37, x.blend, o);
        lemma_subrange_of_subrange(data, i, i + 44, 39, 40);
        assert(data.subrange(i + 39, i + 40) == u8_bytes(x.simulation_type));
        lemma_u8_at_of_bytes(data, i + 39, x.simulation_type);
        lemma_subrange_of_subrange(data, i, i + 44, 40, 41);
        assert(data.subrange(i + 40, i + 41) == u8_bytes(x.simulation_power));
        lemma_u8_at_of_bytes(data, i + 40, x.simulation_power);
        lemma_subrange_of_subrange(data, i, i + 44, 41, 42);
        assert(data.subrange(i + 41, i + 42) == u8_bytes(x.mask_texture_id));
        lemma_u8_at_of_bytes(data, i + 41, x.mask_texture_id);
        lemma_subrange_of_subrange(data, i, i + 44, 42, 43);
        assert(data.subrange(i + 42, i + 43) == u8_bytes(x.value_in));
        lemma_u8_at_of_bytes(data, i + 42, x.value_in);
        lemma_subrange_of_subrange(data, i, i + 44, 43, 44);
        assert(data.subrange(i + 43, i + 44) == u8_bytes(x.value_out));
        lemma_u8_at_of_bytes(data, i + 43, x.value_out);
    }

    /// Decode one group at `*pos`; the caller has checked that all
    /// 44 bytes are there.
    #[verifier::rlimit(60)]
    pub fn read(data: &Vec<u8>, pos: &mut usize, o: ByteOrder) -> (g: EffectShading)
        requires
            *old(pos) + 44 <= data@.len(),
        ensures
            *final(pos) == *old(pos) + 44,
            g == EffectShading::decoded_at(data@, *old(pos) as int, o),
            g.wire(o) == data@.subrange(*old(pos) as int, *old(pos) + 44),
    {
        let rgba_0 = take_u8(data, pos);
        let rgba_1 = take_u8(data, pos);
        let rgba_2 = take_u8(data, pos);
        let rgba_3 = take_u8(data, pos);
        let delta_color_0 = take_u32(data, pos, o);
        let delta_color_1 = take_u32(data, pos, o);
        let delta_color_2 = take_u32(data, pos, o);
        let delta_color_3 = take_u32(data, pos, o);
        let delta_color_attack = take_u16(data, pos, o);
        let delta_color_start_frame = take_u16(data, pos, o);
        let unknown_xb4 = take_u16(data, pos, o);
        let delta_size_start_frame = take_u16(data, pos, o);
        let life_time = take_u16(data, pos, o);
        let animation_speed = take_u32(data, pos, o);
        let unknown_xbe = take_u16(data, pos, o);
        let release_time = take_u8(data, pos);
        let blend = take_u16(data, pos, o);
        let simulation_type = take_u8(data, pos);
        let simulation_power = take_u8(data, pos);
        let mask_texture_id = take_u8(data, pos);
        let value_in = take_u8(data, pos);
        let value_out = take_u8(data, pos);
        let g = EffectShading {
            rgba: (rgba_0, rgba_1, rgba_2, rgba_3),
            delta_color: (delta_color_0, delta_color_1, delta_color_2, delta_color_3),
            delta_color_attack,
            delta_color_start_frame,
            unknown_xb4,
            delta_size_start_frame,
            life_time,
            animation_speed,
            unknown_xbe,
            release_time,
            blend,
            simulation_type,
            simulation_power,
            mask_texture_id,
            value_in,
            value_out,
        };
        proof {
            let p = *old(pos) as int;
            lemma_concat_subrange(data@, p, p + 1, p + 2);
            lemma_concat_subrange(data@, p, p + 2, p + 3);
            lemma_concat_subrange(data@, p, p + 3, p + 4);
            lemma_concat_subrange(data@, p, p + 4, p + 8);
            lemma_concat_subrange(data@, p, p + 8, p + 12);
            lemma_concat_subrange(data@, p, p + 12, p + 16);
            lemma_concat_subrange(data@, p, p + 16, p + 20);
            lemma_concat_subrange(data@, p, p + 20, p + 22);
            lemma_concat_subrange(data@, p, p + 22, p + 24);
            lemma_concat_subrange(data@, p, p + 24, p + 26);
            lemma_concat_subrange(data@, p, p + 26, p + 28);
            lemma_concat_subrange(data@, p, p + 28, p + 30);
            lemma_concat_subrange(data@, p, p + 30, p + 34);
            lemma_concat_subrange(data@, p, p + 34, p + 36);
            lemma_concat_subrange(data@, p, p + 36, p + 37);
            lemma_concat_subrange(data@, p, p + 37, p + 39);
            lemma_concat_subrange(data@, p, p + 39, p + 40);
            lemma_concat_subrange(data@, p, p + 40, p + 41);
            lemma_concat_subrange(data@, p, p + 41, p + 42);
            lemma_concat_subrange(data@, p, p + 42, p + 43);
            lemma_concat_subrange(data@, p, p + 43, p + 44);
            assert(g.wire(o) == data@.subrange(p, p + 44));
        }
        g
    }

    /// Encode this group, appending its 44 wire bytes to `out`.
    #[verifier::rlimit(60)]
    pub fn write(&self, out: &mut Vec<u8>, o: ByteOrder)
        ensures
            final(out)@ == old(out)@ + self.wire(o),
    {
        put_u8(out, self.rgba.0);
        put_u8(out, self.rgba.1);
        put_u8(out, self.rgba.2);
        put_u8(out, self.rgba.3);
        put_u32(out, self.delta_color.0, o);
        put_u32(out, self.delta_color.1, o);
        put_u32(out, self.delta_color.2, o);
        put_u32(out, self.delta_color.3, o);
        put_u16(out, self.delta_color_attack, o);
        put_u16(out, self.delta_color_start_frame, o);
        put_u16(out, self.unknown_xb4, o);
        put_u16(out, self.delta_size_start_frame, o);
        put_u16(out, self.life_time, o);
        put_u32(out, self.animation_speed, o);
        put_u16(out, self.unknown_xbe, o);
        put_u8(out, self.release_time);
        put_u16(out, self.blend, o);
        put_u8(out, self.simulation_type);
        put_u8(out, self.simulation_power);
        put_u8(out, self.mask_texture_id);
        put_u8(out, self.value_in);
        put_u8(out, self.value_out);
        proof {
            assert(out@ =~= old(out)@ + self.wire(o));
        }
    }
}

/// Reserved work fields and the three named vectors, carried verbatim;
/// their purpose is unresearched in the source format.
#[derive(Clone, Copy, PartialEq, Eq, Debug)]
pub struct EffectWork {
    pub work_0: u8,
    pub work_1: u8,
    pub work_2: u8,
    pub work_3: u8,
    pub work_4: u32,
    pub work_5: u32,
    pub work_6: u32,
    pub vector_0: (u32, u32, u32),
    pub vector_1: (u32, u32, u32),
    pub vector_2: (u32, u32, u32),
    pub spline_0: u8,
    pub spline_1: u8,
    pub spline_2: u8,
    pub spline_3: u8,
    pub unknown_x100: u32,
}

impl EffectWork {
    /// The 60 wire bytes of this group in byte order `o`.
    pub open spec fn wire(self, o: ByteOrder) -> Seq<u8> {
        u8_bytes(self.work_0) + u8_bytes(self.work_1) + u8_bytes(self.work_2)
            + u8_bytes(self.work_3) + u32_bytes(self.work_4, o) + u32_bytes(self.work_5, o)
            + u32_bytes(self.work_6, o) + u32_bytes(self.vector_0.0, o)
            + u32_bytes(self.vector_0.1, o) + u32_bytes(self.vector_0.2, o)
            + u32_bytes(self.vector_1.0, o) + u32_bytes(self.vector_1.1, o)
            + u32_bytes(self.vector_1.2, o) + u32_bytes(self.vector_2.0, o)
            + u32_bytes(self.vector_2.1, o) + u32_bytes(self.vector_2.2, o)
            + u8_bytes(self.spline_0) + u8_bytes(self.spline_1) + u8_bytes(self.spline_2)
            + u8_bytes(self.spline_3) + u32_bytes(self.unknown_x100, o)
    }

    /// This group always occupies 60 wire bytes.
    pub proof fn lemma_wire_len(self, o: ByteOrder)
        ensures
            self.wire(o).len() == 60,
    {
    }

    /// The group stored at byte position `i` of `data` in byte order `o`.
    pub open spec fn decoded_at(data: Seq<u8>, i: int, o: ByteOrder) -> EffectWork {
        EffectWork {
            work_0: data[i],
            work_1: data[i + 1],
            work_2: data[i + 2],
            work_3: data[i + 3],
            work_4: u32_at(data, i + 4, o),
            work_5: u32_at(data, i + 8, o),
            work_6: u32_at(data, i + 12, o),
            vector_0: (
                u32_at(data, i + 16, o),
                u32_at(data, i + 20, o),
                u32_at(data, i + 24, o),
            ),
            vector_1: (
                u32_at(data, i + 28, o),
                u32_at(data, i + 32, o),
                u32_at(data, i + 36, o),
            ),
            vector_2: (
                u32_at(data, i + 40, o),
                u32_at(data, i + 44, o),
                u32_at(data, i + 48, o),
            ),
            spline_0: data[i + 52],
            spline_1: data[i + 53],
            spline_2: data[i + 54],
            spline_3: data[i + 55],
            unknown_x100: u32_at(data, i + 56, o),
        }
    }

    /// Decoding any window of `data` that holds this record's wire bytes
    /// yields the record back: the codec loses nothing.
    #[verifier::rlimit(100)]
    pub proof fn lemma_decoded_of_wire(data: Seq<u8>, i: int, x: EffectWork, o: ByteOrder)
        requires
            0 <= i,
            i + 60 <= data.len(),
            data.subrange(i, i + 60) == x.wire(o),
        ensures
            EffectWork::decoded_at(data, i, o) == x,
    {
        assert(u8_bytes(x.work_0).len() == 1);
        assert(u8_bytes(x.work_1).len() == 1);
        assert(u8_bytes(x.work_2).len() == 1);
        assert(u8_bytes(x.work_3).len() == 1);
        assert(u32_bytes(x.work_4, o).len() == 4);
        assert(u32_bytes(x.work_5, o).len() == 4);
        assert(u32_bytes(x.work_6, o).len() == 4);
        assert(u32_bytes(x.vector_0.0, o).len() == 4);
        assert(u32_bytes(x.vector_0.1, o).len() == 4);
        assert(u32_bytes(x.vector_0.2, o).len() == 4);
        assert(u32_bytes(x.vector_1.0, o).len() == 4);
        assert(u32_bytes(x.vector_1.1, o).len() == 4);
        assert(u32_bytes(x.vector_1.2, o).len() == 4);
        assert(u32_bytes(x.vector_2.0, o).len() == 4);
        assert(u32_bytes(x.vector_2.1, o).len() == 4);
        assert(u32_bytes(x.vector_2.2, o).len() == 4);
        assert(u8_bytes(x.spline_0).len() == 1);
        assert(u8_bytes(x.spline_1).len() == 1);
        assert(u8_bytes(x.spline_2).len() == 1);
        assert(u8_bytes(x.spline_3).len() == 1);
        assert(u32_bytes(x.unknown_x100, o).len() == 4);
        assert(x.wire(o).subrange(0, 60) =~= x.wire(o));
        lemma_concat_split(u8_bytes(x.work_0) + u8_bytes(x.work_1) + u8_bytes(x.work_2) + u8_bytes(x.work_3) + u32_bytes(x.work_4, o) + u32_bytes(x.work_5, o) + u32_bytes(x.work_6, o) + u32_bytes(x.vector_0.0, o) + u32_bytes(x.vector_0.1, o) + u32_bytes(x.vector_0.2, o) + u32_bytes(x.vector_1.0, o) + u32_bytes(x.vector_1.1, o) + u32_bytes(x.vector_1.2, o) + u32_bytes(x.vector_2.0, o) + u32_bytes(x.vector_2.1, o) + u32_bytes(x.vector_2.2, o) + u8_bytes(x.spline_0) + u8_bytes(x.spline_1) + u8_bytes(x.spline_2) + u8_bytes(x.spline_3), u32_bytes(x.unknown_x100, o));
        assert(x.wire(o).subrange(0, 56) == u8_bytes(x.work_0) + u8_bytes(x.work_1) + u8_bytes(x.work_2) + u8_bytes(x.work_3) + u32_bytes(x.work_4, o) + u32_bytes(x.work_5, o) + u32_bytes(x.work_6, o) + u32_bytes(x.vector_0.0, o) + u32_bytes(x.vector_0.1, o) + u32_bytes(x.vector_0.2, o) + u32_bytes(x.vector_1.0, o) + u32_bytes(x.vector_1.1, o) + u32_bytes(x.vector_1.2, o) + u32_bytes(x.vector_2.0, o) + u32_bytes(x.vector_2.1, o) + u32_bytes(x.vector_2.2, o) + u8_bytes(x.spline_0) + u8_bytes(x.spline_1) + u8_bytes(x.spline_2) + u8_bytes(x.spline_3));
        assert(x.wire(o).subrange(56, 60) == u32_bytes(x.unknown_x100, o));
        lemma_concat_split(u8_bytes(x.work_0) + u8_bytes(x.work_1) + u8_bytes(x.work_2) + u8_bytes(x.work_3) + u32_bytes(x.work_4, o) + u32_bytes(x.work_5, o) + u32_bytes(x.work_6, o) + u32_bytes(x.vector_0.0, o) + u32_bytes(x.vector_0.1, o) + u32_bytes(x.vector_0.2, o) + u32_bytes(x.vector_1.0, o) + u32_bytes(x.vector_1.1, o) + u32_bytes(x.vector_1.2, o) + u32_bytes(x.vector_2.0, o) + u32_bytes(x.vector_2.1, o) + u32_bytes(x.vector_2.2, o) + u8_bytes(x.spline_0) + u8_bytes(x.spline_1) + u8_bytes(x.spline_2), u8_bytes(x.spline_3));
        lemma_subrange_of_subrange(x.wire(o), 0, 56, 0, 55);
        lemma_subrange_of_subrange(x.wire(o), 0, 56, 55, 56);
        assert(x.wire(o).subrange(0, 55) == u8_bytes(x.work_0) + u8_bytes(x.work_1) + u8_bytes(x.work_2) + u8_bytes(x.work_3) + u32_bytes(x.work_4, o) + u32_bytes(x.work_5, o) + u32_bytes(x.work_6, o) + u32_bytes(x.vector_0.0, o) + u32_bytes(x.vector_0.1, o) + u32_bytes(x.vector_0.2, o) + u32_bytes(x.vector_1.0, o) + u32_bytes(x.vector_1.1, o) + u32_bytes(x.vector_1.2, o) + u32_bytes(x.vector_2.0, o) + u32_bytes(x.vector_2.1, o) + u32_bytes(x.vector_2.2, o) + u8_bytes(x.spline_0) + u8_bytes(x.spline_1) + u8_bytes(x.spline_2));
        assert(x.wire(o).subrange(55, 56) == u8_bytes(x.spline_3));
        lemma_concat_split(u8_bytes(x.work_0) + u8_bytes(x.work_1) + u8_bytes(x.work_2) + u8_bytes(x.work_3) + u32_bytes(x.work_4, o) + u32_bytes(x.work_5, o) + u32_bytes(x.work_6, o) + u32_bytes(x.vector_0.0, o) + u32_bytes(x.vector_0.1, o) + u32_bytes(x.vector_0.2, o) + u32_bytes(x.vector_1.0, o) + u32_bytes(x.vector_1.1, o) + u32_bytes(x.vector_1.2, o) + u32_bytes(x.vector_2.0, o) + u32_bytes(x.vector_2.1, o) + u32_bytes(x.vector_2.2, o) + u8_bytes(x.spline_0) + u8_bytes(x.spline_1), u8_bytes(x.spline_2));
        lemma_subrange_of_subrange(x.wire(o), 0, 55, 0, 54);
        lemma_subrange_of_subrange(x.wire(o), 0, 55, 54, 55);
        assert(x.wire(o).subrange(0, 54) == u8_bytes(x.work_0) + u8_bytes(x.work_1) + u8_bytes(x.work_2) + u8_bytes(x.work_3) + u32_bytes(x.work_4, o) + u32_bytes(x.work_5, o) + u32_bytes(x.work_6, o) + u32_bytes(x.vector_0.0, o) + u32_bytes(x.vector_0.1, o) + u32_bytes(x.vector_0.2, o) + u32_bytes(x.vector_1.0, o) + u32_bytes(x.vector_1.1, o) + u32_bytes(x.vector_1.2, o) + u32_bytes(x.vector_2.0, o) + u32_bytes(x.vector_2.1, o) + u32_bytes(x.vector_2.2, o) + u8_bytes(x.spline_0) + u8_bytes(x.spline_1));
        assert(x.wire(o).subrange(54, 55) == u8_bytes(x.spline_2));
        lemma_concat_split(u8_bytes(x.work_0) + u8_bytes(x.work_1) + u8_bytes(x.work_2) + u8_bytes(x.work_3) + u32_bytes(x.work_4, o) + u32_bytes(x.work_5, o) + u32_bytes(x.work_6, o) + u32_bytes(x.vector_0.0, o) + u32_bytes(x.vector_0.1, o) + u32_bytes(x.vector_0.2, o) + u32_bytes(x.vector_1.0, o) + u32_bytes(x.vector_1.1, o) + u32_bytes(x.vector_1.2, o) + u32_bytes(x.vector_2.0, o) + u32_bytes(x.vector_2.1, o) + u32_bytes(x.vector_2.2, o) + u8_bytes(x.spline_0), u8_bytes(x.spline_1));
        lemma_subrange_of_subrange(x.wire(o), 0, 54, 0, 53);
        lemma_subrange_of_subrange(x.wire(o), 0, 54, 53, 54);
        assert(x.wire(o).subrange(0, 53) == u8_bytes(x.work_0) + u8_bytes(x.work_1) + u8_bytes(x.work_2) + u8_bytes(x.work_3) + u32_bytes(x.work_4, o) + u32_bytes(x.work_5, o) + u32_bytes(x.work_6, o) + u32_bytes(x.vector_0.0, o) + u32_bytes(x.vector_0.1, o) + u32_bytes(x.vector_0.2, o) + u32_bytes(x.vector_1.0, o) + u32_bytes(x.vector_1.1, o) + u32_bytes(x.vector_1.2, o) + u32_bytes(x.vector_2.0, o) + u32_bytes(x.vector_2.1, o) + u32_bytes(x.vector_2.2, o) + u8_bytes(x.spline_0));
        assert(x.wire(o).subrange(53, 54) == u8_bytes(x.spline_1));
        lemma_concat_split(u8_bytes(x.work_0) + u8_bytes(x.work_1) + u8_bytes(x.work_2) + u8_bytes(x.work_3) + u32_bytes(x.work_4, o) + u32_bytes(x.work_5, o) + u32_bytes(x.work_6, o) + u32_bytes(x.vector_0.0, o) + u32_bytes(x.vector_0.1, o) + u32_bytes(x.vector_0.2, o) + u32_bytes(x.vector_1.0, o) + u32_bytes(x.vector_1.1, o) + u32_bytes(x.vector_1.2, o) + u32_bytes(x.vector_2.0, o) + u32_bytes(x.vector_2.1, o) + u32_bytes(x.vector_2.2, o), u8_bytes(x.spline_0));
        lemma_subrange_of_subrange(x.wire(o), 0, 53, 0, 52);
        lemma_subrange_of_subrange(x.wire(o), 0, 53, 52, 53);
        assert(x.wire(o).subrange(0, 52) == u8_bytes(x.work_0) + u8_bytes(x.work_1) + u8_bytes(x.work_2) + u8_bytes(x.work_3) + u32_bytes(x.work_4, o) + u32_bytes(x.work_5, o) + u32_bytes(x.work_6, o) + u32_bytes(x.vector_0.0, o) + u32_bytes(x.vector_0.1, o) + u32_bytes(x.vector_0.2, o) + u32_bytes(x.vector_1.0, o) + u32_bytes(x.vector_1.1, o) + u32_bytes(x.vector_1.2, o) + u32_bytes(x.vector_2.0, o) + u32_bytes(x.vector_2.1, o) + u32_bytes(x.vector_2.2, o));
        assert(x.wire(o).subrange(52, 53) == u8_bytes(x.spline_0));
        lemma_concat_split(u8_bytes(x.work_0) + u8_bytes(x.work_1) + u8_bytes(x.work_2) + u8_bytes(x.work_3) + u32_bytes(x.work_4, o) + u32_bytes(x.work_5, o) + u32_bytes(x.work_6, o) + u32_bytes(x.vector_0.0, o) + u32_bytes(x.vector_0.1, o) + u32_bytes(x.vector_0.2, o) + u32_bytes(x.vector_1.0, o) + u32_bytes(x.vector_1.1, o) + u32_bytes(x.vector_1.2, o) + u32_bytes(x.vector_2.0, o) + u32_bytes(x.vector_2.1, o), u32_bytes(x.vector_2.2, o));
        lemma_subrange_of_subrange(x.wire(o), 0, 52, 0, 48);
        lemma_subrange_of_subrange(x.wire(o), 0, 52, 48, 52);
        assert(x.wire(o).subrange(0, 48) == u8_bytes(x.work_0) + u8_bytes(x.work_1) + u8_bytes(x.work_2) + u8_bytes(x.work_3) + u32_bytes(x.work_4, o) + u32_bytes(x.work_5, o) + u32_bytes(x.work_6, o) + u32_bytes(x.vector_0.0, o) + u32_bytes(x.vector_0.1, o) + u32_bytes(x.vector_0.2, o) + u32_bytes(x.vector_1.0, o) + u32_bytes(x.vector_1.1, o) + u32_bytes(x.vector_1.2, o) + u32_bytes(x.vector_2.0, o) + u32_bytes(x.vector_2.1, o));
        assert(x.wire(o).subrange(48, 52) == u32_bytes(x.vector_2.2, o));
        lemma_concat_split(u8_bytes(x.work_0) + u8_bytes(x.work_1) + u8_bytes(x.work_2) + u8_bytes(x.work_3) + u32_bytes(x.work_4, o) + u32_bytes(x.work_5, o) + u32_bytes(x.work_6, o) + u32_bytes(x.vector_0.0, o) + u32_bytes(x.vector_0.1, o) + u32_bytes(x.vector_0.2, o) + u32_bytes(x.vector_1.0, o) + u32_bytes(x.vector_1.1, o) + u32_bytes(x.vector_1.2, o) + u32_bytes(x.vector_2.0, o), u32_bytes(x.vector_2.1, o));
        lemma_subrange_of_subrange(x.wire(o), 0, 48, 0, 44);
        lemma_subrange_of_subrange(x.wire(o), 0, 48, 44, 48);
        assert(x.wire(o).subrange(0, 44) == u8_bytes(x.work_0) + u8_bytes(x.work_1) + u8_bytes(x.work_2) + u8_bytes(x.work_3) + u32_bytes(x.work_4, o) + u32_bytes(x.work_5, o) + u32_bytes(x.work_6, o) + u32_bytes(x.vector_0.0, o) + u32_bytes(x.vector_0.1, o) + u32_bytes(x.vector_0.2, o) + u32_bytes(x.vector_1.0, o) + u32_bytes(x.vector_1.1, o) + u32_bytes(x.vector_1.2, o) + u32_bytes(x.vector_2.0, o));
        assert(x.wire(o).subrange(44, 48) == u32_bytes(x.vector_2.1, o));
        lemma_concat_split(u8_bytes(x.work_0) + u8_bytes(x.work_1) + u8_bytes(x.work_2) + u8_bytes(x.work_3) + u32_bytes(x.work_4, o) + u32_bytes(x.work_5, o) + u32_bytes(x.work_6, o) + u32_bytes(x.vector_0.0, o) + u32_bytes(x.vector_0.1, o) + u32_bytes(x.vector_0.2, o) + u32_bytes(x.vector_1.0, o) + u32_bytes(x.vector_1.1, o) + u32_bytes(x.vector_1.2, o), u32_bytes(x.vector_2.0, o));
        lemma_subrange_of_subrange(x.wire(o), 0, 44, 0, 40);
        lemma_subrange_of_subrange(x.wire(o), 0, 44, 40, 44);
        assert(x.wire(o).subrange(0, 40) == u8_bytes(x.work_0) + u8_bytes(x.work_1) + u8_bytes(x.work_2) + u8_bytes(x.work_3) + u32_bytes(x.work_4, o) + u32_bytes(x.work_5, o) + u32_bytes(x.work_6, o) + u32_bytes(x.vector_0.0, o) + u32_bytes(x.vector_0.1, o) + u32_bytes(x.vector_0.2, o) + u32_bytes(x.vector_1.0, o) + u32_bytes(x.vector_1.1, o) + u32_bytes(x.vector_1.2, o));
        assert(x.wire(o).subrange(40, 44) == u32_bytes(x.vector_2.0, o));
        lemma_concat_split(u8_bytes(x.work_0) + u8_bytes(x.work_1) + u8_bytes(x.work_2) + u8_bytes(x.work_3) + u32_bytes(x.work_4, o) + u32_bytes(x.work_5, o) + u32_bytes(x.work_6, o) + u32_bytes(x.vector_0.0, o) + u32_bytes(x.vector_0.1, o) + u32_bytes(x.vector_0.2, o) + u32_bytes(x.vector_1.0, o) + u32_bytes(x.vector_1.1, o), u32_bytes(x.vector_1.2, o));
        lemma_subrange_of_subrange(x.wire(o), 0, 40, 0, 36);
        lemma_subrange_of_subrange(x.wire(o), 0, 40, 36, 40);
        assert(x.wire(o).subrange(0, 36) == u8_bytes(x.work_0) + u8_bytes(x.work_1) + u8_bytes(x.work_2) + u8_bytes(x.work_3) + u32_bytes(x.work_4, o) + u32_bytes(x.work_5, o) + u32_bytes(x.work_6, o) + u32_bytes(x.vector_0.0, o) + u32_bytes(x.vector_0.1, o) + u32_bytes(x.vector_0.2, o) + u32_bytes(x.vector_1.0, o) + u32_bytes(x.vector_1.1, o));
        assert(x.wire(o).subrange(36, 40) == u32_bytes(x.vector_1.2, o));
        lemma_concat_split(u8_bytes(x.work_0) + u8_bytes(x.work_1) + u8_bytes(x.work_2) + u8_bytes(x.work_3) + u32_bytes(x.work_4, o) + u32_bytes(x.work_5, o) + u32_bytes(x.work_6, o) + u32_bytes(x.vector_0.0, o) + u32_bytes(x.vector_0.1, o) + u32_bytes(x.vector_0.2, o) + u32_bytes(x.vector_1.0, o), u32_bytes(x.vector_1.1, o));
        lemma_subrange_of_subrange(x.wire(o), 0, 36, 0, 32);
        lemma_subrange_of_subrange(x.wire(o), 0, 36, 32, 36);
        assert(x.wire(o).subrange(0, 32) == u8_bytes(x.work_0) + u8_bytes(x.work_1) + u8_bytes(x.work_2) + u8_bytes(x.work_3) + u32_bytes(x.work_4, o) + u32_bytes(x.work_5, o) + u32_bytes(x.work_6, o) + u32_bytes(x.vector_0.0, o) + u32_bytes(x.vector_0.1, o) + u32_bytes(x.vector_0.2, o) + u32_bytes(x.vector_1.0, o));
        assert(x.wire(o).subrange(32, 36) == u32_bytes(x.vector_1.1, o));
        lemma_concat_split(u8_bytes(x.work_0) + u8_bytes(x.work_1) + u8_bytes(x.work_2) + u8_bytes(x.work_3) + u32_bytes(x.work_4, o) + u32_bytes(x.work_5, o) + u32_bytes(x.work_6, o) + u32_bytes(x.vector_0.0, o) + u32_bytes(x.vector_0.1, o) + u32_bytes(x.vector_0.2, o), u32_bytes(x.vector_1.0, o));
        lemma_subrange_of_subrange(x.wire(o), 0, 32, 0, 28);
        lemma_subrange_of_subrange(x.wire(o), 0, 32, 28, 32);
        assert(x.wire(o).subrange(0, 28) == u8_bytes(x.work_0) + u8_bytes(x.work_1) + u8_bytes(x.work_2) + u8_bytes(x.work_3) + u32_bytes(x.work_4, o) + u32_bytes(x.work_5, o) + u32_bytes(x.work_6, o) + u32_bytes(x.vector_0.0, o) + u32_bytes(x.vector_0.1, o) + u32_bytes(x.vector_0.2, o));
        assert(x.wire(o).subrange(28, 32) == u32_bytes(x.vector_1.0, o));
        lemma_concat_split(u8_bytes(x.work_0) + u8_bytes(x.work_1) + u8_bytes(x.work_2) + u8_bytes(x.work_3) + u32_bytes(x.work_4, o) + u32_bytes(x.work_5, o) + u32_bytes(x.work_6, o) + u32_bytes(x.vector_0.0, o) + u32_bytes(x.vector_0.1, o), u32_bytes(x.vector_0.2, o));
        lemma_subrange_of_subrange(x.wire(o), 0, 28, 0, 24);
        lemma_subrange_of_subrange(x.wire(o), 0, 28, 24, 28);
        assert(x.wire(o).subrange(0, 24) == u8_bytes(x.work_0) + u8_bytes(x.work_1) + u8_bytes(x.work_2) + u8_bytes(x.work_3) + u32_bytes(x.work_4, o) + u32_bytes(x.work_5, o) + u32_bytes(x.work_6, o) + u32_bytes(x.vector_0.0, o) + u32_bytes(x.vector_0.1, o));
        assert(x.wire(o).subrange(24, 28) == u32_bytes(x.vector_0.2, o));
        lemma_concat_split(u8_bytes(x.work_0) + u8_bytes(x.work_1) + u8_bytes(x.work_2) + u8_bytes(x.work_3) + u32_bytes(x.work_4, o) + u32_bytes(x.work_5, o) + u32_bytes(x.work_6, o) + u32_bytes(x.vector_0.0, o), u32_bytes(x.vector_0.1, o));
        lemma_subrange_of_subrange(x.wire(o), 0, 24, 0, 20);
        lemma_subrange_of_subrange(x.wire(o), 0, 24, 20, 24);
        assert(x.wire(o).subrange(0, 20) == u8_bytes(x.work_0) + u8_bytes(x.work_1) + u8_bytes(x.work_2) + u8_bytes(x.work_3) + u32_bytes(x.work_4, o) + u32_bytes(x.work_5, o) + u32_bytes(x.work_6, o) + u32_bytes(x.vector_0.0, o));
        assert(x.wire(o).subrange(20, 24) == u32_bytes(x.vector_0.1, o));
        lemma_concat_split(u8_bytes(x.work_0) + u8_bytes(x.work_1) + u8_bytes(x.work_2) + u8_bytes(x.work_3) + u32_bytes(x.work_4, o) + u32_bytes(x.work_5, o) + u32_bytes(x.work_6, o), u32_bytes(x.vector_0.0, o));
        lemma_subrange_of_subrange(x.wire(o), 0, 20, 0, 16);
        lemma_subrange_of_subrange(x.wire(o), 0, 20, 16, 20);
        assert(x.wire(o).subrange(0, 16) == u8_bytes(x.work_0) + u8_bytes(x.work_1) + u8_bytes(x.work_2) + u8_bytes(x.work_3) + u32_bytes(x.work_4, o) + u32_bytes(x.work_5, o) + u32_bytes(x.work_6, o));
        assert(x.wire(o).subrange(16, 20) == u32_bytes(x.vector_0.0, o));
        lemma_concat_split(u8_bytes(x.work_0) + u8_bytes(x.work_1) + u8_bytes(x.work_2) + u8_bytes(x.work_3) + u32_bytes(x.work_4, o) + u32_bytes(x.work_5, o), u32_bytes(x.work_6, o));
        lemma_subrange_of_subrange(x.wire(o), 0, 16, 0, 12);
        lemma_subrange_of_subrange(x.wire(o), 0, 16, 12, 16);
        assert(x.wire(o).subrange(0, 12) == u8_bytes(x.work_0) + u8_bytes(x.work_1) + u8_bytes(x.work_2) + u8_bytes(x.work_3) + u32_bytes(x.work_4, o) + u32_bytes(x.work_5, o));
        assert(x.wire(o).subrange(12, 16) == u32_bytes(x.work_6, o));
        lemma_concat_split(u8_bytes(x.work_0) + u8_bytes(x.work_1) + u8_bytes(x.work_2) + u8_bytes(x.work_3) + u32_bytes(x.work_4, o), u32_bytes(x.work_5, o));
        lemma_subrange_of_subrange(x.wire(o), 0, 12, 0, 8);
        lemma_subrange_of_subrange(x.wire(o), 0, 12, 8, 12);
        assert(x.wire(o).subrange(0, 8) == u8_bytes(x.work_0) + u8_bytes(x.work_1) + u8_bytes(x.work_2) + u8_bytes(x.work_3) + u32_bytes(x.work_4, o));
        assert(x.wire(o).subrange(8, 12) == u32_bytes(x.work_5, o));
        lemma_concat_split(u8_bytes(x.work_0) + u8_bytes(x.work_1) + u8_bytes(x.work_2) + u8_bytes(x.work_3), u32_bytes(x.work_4, o));
        lemma_subrange_of_subrange(x.wire(o), 0, 8, 0, 4);
        lemma_subrange_of_subrange(x.wire(o), 0, 8, 4, 8);
        assert(x.wire(o).subrange(0, 4) == u8_bytes(x.work_0) + u8_bytes(x.work_1) + u8_bytes(x.work_2) + u8_bytes(x.work_3));
        assert(x.wire(o).subrange(4, 8) == u32_bytes(x.work_4, o));
        lemma_concat_split(u8_bytes(x.work_0) + u8_bytes(x.work_1) + u8_bytes(x.work_2), u8_bytes(x.work_3));
        lemma_subrange_of_subrange(x.wire(o), 0, 4, 0, 3);
        lemma_subrange_of_subrange(x.wire(o), 0, 4, 3, 4);
        assert(x.wire(o).subrange(0, 3) == u8_bytes(x.work_0) + u8_bytes(x.work_1) + u8_bytes(x.work_2));
        assert(x.wire(o).subrange(3, 4) == u8_bytes(x.work_3));
        lemma_concat_split(u8_bytes(x.work_0) + u8_bytes(x.work_1), u8_bytes(x.work_2));
        lemma_subrange_of_subrange(x.wire(o), 0, 3, 0, 2);
        lemma_subrange_of_subrange(x.wire(o), 0, 3, 2, 3);
        assert(x.wire(o).subrange(0, 2) == u8_bytes(x.work_0) + u8_bytes(x.work_1));
        assert(x.wire(o).subrange(2, 3) == u8_bytes(x.work_2));
        lemma_concat_split(u8_bytes(x.work_0), u8_bytes(x.work_1));
        lemma_subrange_of_subrange(x.wire(o), 0, 2, 0, 1);
        lemma_subrange_of_subrange(x.wire(o), 0, 2, 1, 2);
        assert(x.wire(o).subrange(0, 1) == u8_bytes(x.work_0));
        assert(x.wire(o).subrange(1, 2) == u8_bytes(x.work_1));
        lemma_subrange_of_subrange(data, i, i + 60, 0, 1);
        assert(data.subrange(i, i + 1) == u8_bytes(x.work_0));
        lemma_u8_at_of_bytes(data, i, x.work_0);
        lemma_subrange_of_subrange(data, i, i + 60, 1, 2);
        assert(data.subrange(i + 1, i + 2) == u8_bytes(x.work_1));
        lemma_u8_at_of_bytes(data, i + 1, x.work_1);
        lemma_subrange_of_subrange(data, i, i + 60, 2, 3);
        assert(data.subrange(i + 2, i + 3) == u8_bytes(x.work_2));
        lemma_u8_at_of_bytes(data, i + 2, x.work_2);
        lemma_subrange_of_subrange(data, i, i + 60, 3, 4);
        assert(data.subrange(i + 3, i + 4) == u8_bytes(x.work_3));
        lemma_u8_at_of_bytes(data, i + 3, x.work_3);
        lemma_subrange_of_subrange(data, i, i + 60, 4, 8);
        assert(data.subrange(i + 4, i + 8) == u32_bytes(x.work_4, o));
        lemma_u32_at_of_bytes(data, i + 4, x.work_4, o);
        lemma_subrange_of_subrange(data, i, i + 60, 8, 12);
        assert(data.subrange(i + 8, i + 12) == u32_bytes(x.work_5, o));
        lemma_u32_at_of_bytes(data, i + 8, x.work_5, o);
        lemma_subrange_of_subrange(data, i, i + 60, 12, 16);
        assert(data.subrange(i + 12, i + 16) == u32_bytes(x.work_6, o));
        lemma_u32_at_of_bytes(data, i + 12, x.work_6, o);
        lemma_subrange_of_subrange(data, i, i + 60, 16, 20);
        assert(data.subrange(i + 16, i + 20) == u32_bytes(x.vector_0.0, o));
        lemma_u32_at_of_bytes(data, i + 16, x.vector_0.0, o);
        lemma_subrange_of_subrange(data, i, i + 60, 20, 24);
        assert(data.subrange(i + 20, i + 24) == u32_bytes(x.vector_0.1, o));
        lemma_u32_at_of_bytes(data, i + 20, x.vector_0.1, o);
        lemma_subrange_of_subrange(data, i, i + 60, 24, 28);
        assert(data.subrange(i + 24, i + 28) == u32_bytes(x.vector_0.2, o));
        lemma_u32_at_of_bytes(data, i + 24, x.vector_0.2, o);
        lemma_subrange_of_subrange(data, i, i + 60, 28, 32);
        assert(data.subrange(i + 28, i + 32) == u32_bytes(x.vector_1.0, o));
        lemma_u32_at_of_bytes(data, i + 28, x.vector_1.0, o);
        lemma_subrange_of_subrange(data, i, i + 60, 32, 36);
        assert(data.subrange(i + 32, i + 36) == u32_bytes(x.vector_1.1, o));
        lemma_u32_at_of_bytes(data, i + 32, x.vector_1.1, o);
        lemma_subrange_of_subrange(data, i, i + 60, 36, 40);
        assert(data.subrange(i + 36, i + 40) == u32_bytes(x.vector_1.2, o));
        lemma_u32_at_of_bytes(data, i + 36, x.vector_1.2, o);
        lemma_subrange_of_subrange(data, i, i + 60, 40, 44);
        assert(data.subrange(i + 40, i + 44) == u32_bytes(x.vector_2.0, o));
        lemma_u32_at_of_bytes(data, i + 40, x.vector_2.0, o);
        lemma_subrange_of_subrange(data, i, i + 60, 44, 48);
        assert(data.subrange(i + 44, i + 48) == u32_bytes(x.vector_2.1, o));
        lemma_u32_at_of_bytes(data, i + 44, x.vector_2.1, o);
        lemma_subrange_of_subrange(data, i, i + 60, 48, 52);
        assert(data.subrange(i + 48, i + 52) == u32_bytes(x.vector_2.2, o));
        lemma_u32_at_of_bytes(data, i + 48, x.vector_2.2, o);
        lemma_subrange_of_subrange(data, i, i + 60, 52, 53);
        assert(data.subrange(i + 52, i + 53) == u8_bytes(x.spline_0));
        lemma_u8_at_of_bytes(data, i + 52, x.spline_0);
        lemma_subrange_of_subrange(data, i, i + 60, 53, 54);
        assert(data.subrange(i + 53, i + 54) == u8_bytes(x.spline_1));
        lemma_u8_at_of_bytes(data, i + 53, x.spline_1);
        lemma_subrange_of_subrange(data, i, i + 60, 54, 55);
        assert(data.subrange(i + 54, i + 55) == u8_bytes(x.spline_2));
        lemma_u8_at_of_bytes(data, i + 54, x.spline_2);
        lemma_subrange_of_subrange(data, i, i + 60, 55, 56);
        assert(data.subrange(i + 55, i + 56) == u8_bytes(x.spline_3));
        lemma_u8_at_of_bytes(data, i + 55, x.spline_3);
        lemma_subrange_of_subrange(data, i, i + 60, 56, 60);
        assert(data.subrange(i + 56, i + 60) == u32_bytes(x.unknown_x100, o));
        lemma_u32_at_of_bytes(data, i + 56, x.unknown_x100, o);
    }

    /// Decode one group at `*pos`; the caller has checked that all
    /// 60 bytes are there.
    #[verifier::rlimit(60)]
    pub fn read(data: &Vec<u8>, pos: &mut usize, o: ByteOrder) -> (g: EffectWork)
        requires
            *old(pos) + 60 <= data@.len(),
        ensures
            *final(pos) == *old(pos) + 60,
            g == EffectWork::decoded_at(data@, *old(pos) as int, o),
            g.wire(o) == data@.subrange(*old(pos) as int, *old(pos) + 60),
    {
        let work_0 = take_u8(data, pos);
        let work_1 = take_u8(data, pos);
        let work_2 = take_u8(data, pos);
        let work_3 = take_u8(data, pos);
        let work_4 = take_u32(data, pos, o);
        let work_5 = take_u32(data, pos, o);
        let work_6 = take_u32(data, pos, o);
        let vector_0_0 = take_u32(data, pos, o);
        let vector_0_1 = take_u32(data, pos, o);
        let vector_0_2 = take_u32(data, pos, o);
        let vector_1_0 = take_u32(data, pos, o);
        let vector_1_1 = take_u32(data, pos, o);
        let vector_1_2 = take_u32(data, pos, o);
        let vector_2_0 = take_u32(data, pos, o);
        let vector_2_1 = take_u32(data, pos, o);
        let vector_2_2 = take_u32(data, pos, o);
        let spline_0 = take_u8(data, pos);
        let spline_1 = take_u8(data, pos);
        let spline_2 = take_u8(data, pos);
        let spline_3 = take_u8(data, pos);
        let unknown_x100 = take_u32(data, pos, o);
        let g = EffectWork {
            work_0,
            work_1,
            work_2,
            work_3,
            work_4,
            work_5,
            work_6,
            vector_0: (vector_0_0, vector_0_1, vector_0_2),
            vector_1: (vector_1_0, vector_1_1, vector_1_2),
            vector_2: (vector_2_0, vector_2_1, vector_2_2),
            spline_0,
            spline_1,
            spline_2,
            spline_3,
            unknown_x100,
        };
        proof {
            let p = *old(pos) as int;
            lemma_concat_subrange(data@, p, p + 1, p + 2);
            lemma_concat_subrange(data@, p, p + 2, p + 3);
            lemma_concat_subrange(data@, p, p + 3, p + 4);
            lemma_concat_subrange(data@, p, p + 4, p + 8);
            lemma_concat_subrange(data@, p, p + 8, p + 12);
            lemma_concat_subrange(data@, p, p + 12, p + 16);
            lemma_concat_subrange(data@, p, p + 16, p + 20);
            lemma_concat_subrange(data@, p, p + 20, p + 24);
            lemma_concat_subrange(data@, p, p + 24, p + 28);
            lemma_concat_subrange(data@, p, p + 28, p + 32);
            lemma_concat_subrange(data@, p, p + 32, p + 36);
            lemma_concat_subrange(data@, p, p + 36, p + 40);
            lemma_concat_subrange(data@, p, p + 40, p + 44);
            lemma_concat_subrange(data@, p, p + 44, p + 48);
            lemma_concat_subrange(data@, p, p + 48, p + 52);
            lemma_concat_subrange(data@, p, p + 52, p + 53);
            lemma_concat_subrange(data@, p, p + 53, p + 54);
            lemma_concat_subrange(data@, p, p + 54, p + 55);
            lemma_concat_subrange(data@, p, p + 55, p + 56);
            lemma_concat_subrange(data@, p, p + 56, p + 60);
            assert(g.wire(o) == data@.subrange(p, p + 60));
        }
        g
    }

    /// Encode this group, appending its 60 wire bytes to `out`.
    #[verifier::rlimit(60)]
    pub fn write(&self, out: &mut Vec<u8>, o: ByteOrder)
        ensures
            final(out)@ == old(out)@ + self.wire(o),
    {
        put_u8(out, self.work_0);
        put_u8(out, self.work_1);
        put_u8(out, self.work_2);
        put_u8(out, self.work_3);
        put_u32(out, self.work_4, o);
        put_u32(out, self.work_5, o);
        put_u32(out, self.work_6, o);
        put_u32(out, self.vector_0.0, o);
        put_u32(out, self.vector_0.1, o);
        put_u32(out, self.vector_0.2, o);
        put_u32(out, self.vector_1.0, o);
        put_u32(out, self.vector_1.1, o);
        put_u32(out, self.vector_1.2, o);
        put_u32(out, self.vector_2.0, o);
        put_u32(out, self.vector_2.1, o);
        put_u32(out, self.vector_2.2, o);
        put_u8(out, self.spline_0);
        put_u8(out, self.spline_1);
        put_u8(out, self.spline_2);
        put_u8(out, self.spline_3);
        put_u32(out, self.unknown_x100, o);
        proof {
            assert(out@ =~= old(out)@ + self.wire(o));
        }
    }
}

/// Path-following control block: spline selection and the nested
/// control parameters used when the effect drives a path.
#[derive(Clone, Copy, PartialEq, Eq, Debug)]
pub struct EffectControl {
    pub path_own: u8,
    pub path_number: u8,
    pub path_start: u8,
    pub path_random: u8,
    pub eff_type: u8,
    pub control_id: u8,
    pub control_flag: u16,
    pub control_interval: u8,
    pub control_number: u8,
    pub control_rp: u8,
    pub unknown_x10f: u8,
    pub control_life: u16,
    pub unknown_x112: u16,
    pub unknown_x114: u16,
    pub unknown_x116: u16,
    pub control_path_scale: (u32, u32, u32),
    pub control_path_delta_size: u8,
    pub control_path_delta_speed: u8,
    pub control_path_delta_alpha: u8,
    pub control_path_delta_interval: u8,
    pub control_path_random_interval: u8,
    pub control_path_rotation: (u8, u8),
    pub control_path_flag: u8,
}

impl EffectControl {
    /// The 40 wire bytes of this group in byte order `o`.
    pub open spec fn wire(self, o: ByteOrder) -> Seq<u8> {
        u8_bytes(self.path_own) + u8_bytes(self.path_number) + u8_bytes(self.path_start)
            + u8_bytes(self.path_random) + u8_bytes(self.eff_type) + u8_bytes(self.control_id)
            + u16_bytes(self.control_flag, o) + u8_bytes(self.control_interval)
            + u8_bytes(self.control_number) + u8_bytes(self.control_rp)
            + u8_bytes(self.unknown_x10f) + u16_bytes(self.control_life, o)
            + u16_bytes(self.unknown_x112, o) + u16_bytes(self.unknown_x114, o)
            + u16_bytes(self.unknown_x116, o) + u32_bytes(self.control_path_scale.0, o)
            + u32_bytes(self.control_path_scale.1, o) + u32_bytes(self.control_path_scale.2, o)
            + u8_bytes(self.control_path_delta_size) + u8_bytes(self.control_path_delta_speed)
            + u8_bytes(self.control_path_delta_alpha)
            + u8_bytes(self.control_path_delta_interval)
            + u8_bytes(self.control_path_random_interval)
            + u8_bytes(self.control_path_rotation.0) + u8_bytes(self.control_path_rotation.1)
            + u8_bytes(self.control_path_flag)
    }

    /// This group always occupies 40 wire bytes.
    pub proof fn lemma_wire_len(self, o: ByteOrder)
        ensures
            self.wire(o).len() == 40,
    {
    }

    /// The group stored at byte position `i` of `data` in byte order `o`.
    pub open spec fn decoded_at(data: Seq<u8>, i: int, o: ByteOrder) -> EffectControl {
        EffectControl {
            path_own: data[i],
            path_number: data[i + 1],
            path_start: data[i + 2],
            path_random: data[i + 3],
            eff_type: data[i + 4],
            control_id: data[i + 5],
            control_flag: u16_at(data, i + 6, o),
            control_interval: data[i + 8],
            control_number: data[i + 9],
            control_rp: data[i + 10],
            unknown_x10f: data[i + 11],
            control_life: u16_at(data, i + 12, o),
            unknown_x112: u16_at(data, i + 14, o),
            unknown_x114: u16_at(data, i + 16, o),
            unknown_x116: u16_at(data, i + 18, o),
            control_path_scale: (
                u32_at(data, i + 20, o),
                u32_at(data, i + 24, o),
                u32_at(data, i + 28, o),
            ),
            control_path_delta_size: data[i + 32],
            control_path_delta_speed: data[i + 33],
            control_path_delta_alpha: data[i + 34],
            control_path_delta_interval: data[i + 35],
            control_path_random_interval: data[i + 36],
            control_path_rotation: (
                data[i + 37],
                data[i + 38],
            ),
            control_path_flag: data[i + 39],
        }
    }

    /// Decoding any window of `data` that holds this record's wire bytes
    /// yields the record back: the codec loses nothing.
    #[verifier::rlimit(100)]
    pub proof fn lemma_decoded_of_wire(data: Seq<u8>, i: int, x: EffectControl, o: ByteOrder)
        requires
            0 <= i,
            i + 40 <= data.len(),
            data.subrange(i, i + 40) == x.wire(o),
        ensures
            EffectControl::decoded_at(data, i, o) == x,
    {
        assert(u8_bytes(x.path_own).len() == 1);
        assert(u8_bytes(x.path_number).len() == 1);
        assert(u8_bytes(x.path_start).len() == 1);
        assert(u8_bytes(x.path_random).len() == 1);
        assert(u8_bytes(x.eff_type).len() == 1);
        assert(u8_bytes(x.control_id).len() == 1);
        assert(u16_bytes(x.control_flag, o).len() == 2);
        assert(u8_bytes(x.control_interval).len() == 1);
        assert(u8_bytes(x.control_number).len() == 1);
        assert(u8_bytes(x.control_rp).len() == 1);
        assert(u8_bytes(x.unknown_x10f).len() == 1);
        assert(u16_bytes(x.control_life, o).len() == 2);
        assert(u16_bytes(x.unknown_x112, o).len() == 2);
        assert(u16_bytes(x.unknown_x114, o).len() == 2);
        assert(u16_bytes(x.unknown_x116, o).len() == 2);
        assert(u32_bytes(x.control_path_scale.0, o).len() == 4);
        assert(u32_bytes(x.control_path_scale.1, o).len() == 4);
        assert(u32_bytes(x.control_path_scale.2, o).len() == 4);
        assert(u8_bytes(x.control_path_delta_size).len() == 1);
        assert(u8_bytes(x.control_path_delta_speed).len() == 1);
        assert(u8_bytes(x.control_path_delta_alpha).len() == 1);
        assert(u8_bytes(x.control_path_delta_interval).len() == 1);
        assert(u8_bytes(x.control_path_random_interval).len() == 1);
        assert(u8_bytes(x.control_path_rotation.0).len() == 1);
        assert(u8_bytes(x.control_path_rotation.1).len() == 1);
        assert(u8_bytes(x.control_path_flag).len() == 1);
        assert(x.wire(o).subrange(0, 40) =~= x.wire(o));
        lemma_concat_split(u8_bytes(x.path_own) + u8_bytes(x.path_number) + u8_bytes(x.path_start) + u8_bytes(x.path_random) + u8_bytes(x.eff_type) + u8_bytes(x.control_id) + u16_bytes(x.control_flag, o) + u8_bytes(x.control_interval) + u8_bytes(x.control_number) + u8_bytes(x.control_rp) + u8_bytes(x.unknown_x10f) + u16_bytes(x.control_life, o) + u16_bytes(x.unknown_x112, o) + u16_bytes(x.unknown_x114, o) + u16_bytes(x.unknown_x116, o) + u32_bytes(x.control_path_scale.0, o) + u32_bytes(x.control_path_scale.1, o) + u32_bytes(x.control_path_scale.2, o) + u8_bytes(x.control_path_delta_size) + u8_bytes(x.control_path_delta_speed) + u8_bytes(x.control_path_delta_alpha) + u8_bytes(x.control_path_delta_interval) + u8_bytes(x.control_path_random_interval) + u8_bytes(x.control_path_rotation.0) + u8_bytes(x.control_path_rotation.1), u8_bytes(x.control_path_flag));
        assert(x.wire(o).subrange(0, 39) == u8_bytes(x.path_own) + u8_bytes(x.path_number) + u8_bytes(x.path_start) + u8_bytes(x.path_random) + u8_bytes(x.eff_type) + u8_bytes(x.control_id) + u16_bytes(x.control_flag, o) + u8_bytes(x.control_interval) + u8_bytes(x.control_number) + u8_bytes(x.control_rp) + u8_bytes(x.unknown_x10f) + u16_bytes(x.control_life, o) + u16_bytes(x.unknown_x112, o) + u16_bytes(x.unknown_x114, o) + u16_bytes(x.unknown_x116, o) + u32_bytes(x.control_path_scale.0, o) + u32_bytes(x.control_path_scale.1, o) + u32_bytes(x.control_path_scale.2, o) + u8_bytes(x.control_path_delta_size) + u8_bytes(x.control_path_delta_speed) + u8_bytes(x.control_path_delta_alpha) + u8_bytes(x.control_path_delta_interval) + u8_bytes(x.control_path_random_interval) + u8_bytes(x.control_path_rotation.0) + u8_bytes(x.control_path_rotation.1));
        assert(x.wire(o).subrange(39, 40) == u8_bytes(x.control_path_flag));
        lemma_concat_split(u8_bytes(x.path_own) + u8_bytes(x.path_number) + u8_bytes(x.path_start) + u8_bytes(x.path_random) + u8_bytes(x.eff_type) + u8_bytes(x.control_id) + u16_bytes(x.control_flag, o) + u8_bytes(x.control_interval) + u8_bytes(x.control_number) + u8_bytes(x.control_rp) + u8_bytes(x.unknown_x10f) + u16_bytes(x.control_life, o) + u16_bytes(x.unknown_x112, o) + u16_bytes(x.unknown_x114, o) + u16_bytes(x.unknown_x116, o) + u32_bytes(x.control_path_scale.0, o) + u32_bytes(x.control_path_scale.1, o) + u32_bytes(x.control_path_scale.2, o) + u8_bytes(x.control_path_delta_size) + u8_bytes(x.control_path_delta_speed) + u8_bytes(x.control_path_delta_alpha) + u8_bytes(x.control_path_delta_interval) + u8_bytes(x.control_path_random_interval) + u8_bytes(x.control_path_rotation.0), u8_bytes(x.control_path_rotation.1));
        lemma_subrange_of_subrange(x.wire(o), 0, 39, 0, 38);
        lemma_subrange_of_subrange(x.wire(o), 0, 39, 38, 39);
        assert(x.wire(o).subrange(0, 38) == u8_bytes(x.path_own) + u8_bytes(x.path_number) + u8_bytes(x.path_start) + u8_bytes(x.path_random) + u8_bytes(x.eff_type) + u8_bytes(x.control_id) + u16_bytes(x.control_flag, o) + u8_bytes(x.control_interval) + u8_bytes(x.control_number) + u8_bytes(x.control_rp) + u8_bytes(x.unknown_x10f) + u16_bytes(x.control_life, o) + u16_bytes(x.unknown_x112, o) + u16_bytes(x.unknown_x114, o) + u16_bytes(x.unknown_x116, o) + u32_bytes(x.control_path_scale.0, o) + u32_bytes(x.control_path_scale.1, o) + u32_bytes(x.control_path_scale.2, o) + u8_bytes(x.control_path_delta_size) + u8_bytes(x.control_path_delta_speed) + u8_bytes(x.control_path_delta_alpha) + u8_bytes(x.control_path_delta_interval) + u8_bytes(x.control_path_random_interval) + u8_bytes(x.control_path_rotation.0));
        assert(x.wire(o).subrange(38, 39) == u8_bytes(x.control_path_rotation.1));
        lemma_concat_split(u8_bytes(x.path_own) + u8_bytes(x.path_number) + u8_bytes(x.path_start) + u8_bytes(x.path_random) + u8_bytes(x.eff_type) + u8_bytes(x.control_id) + u16_bytes(x.control_flag, o) + u8_bytes(x.control_interval) + u8_bytes(x.control_number) + u8_bytes(x.control_rp) + u8_bytes(x.unknown_x10f) + u16_bytes(x.control_life, o) + u16_bytes(x.unknown_x112, o) + u16_bytes(x.unknown_x114, o) + u16_bytes(x.unknown_x116, o) + u32_bytes(x.control_path_scale.0, o) + u32_bytes(x.control_path_scale.1, o) + u32_bytes(x.control_path_scale.2, o) + u8_bytes(x.control_path_delta_size) + u8_bytes(x.control_path_delta_speed) + u8_bytes(x.control_path_delta_alpha) + u8_bytes(x.control_path_delta_interval) + u8_bytes(x.control_path_random_interval), u8_bytes(x.control_path_rotation.0));
        lemma_subrange_of_subrange(x.wire(o), 0, 38, 0, 37);
        lemma_subrange_of_subrange(x.wire(o), 0, 38, 37, 38);
        assert(x.wire(o).subrange(0, 37) == u8_bytes(x.path_own) + u8_bytes(x.path_number) + u8_bytes(x.path_start) + u8_bytes(x.path_random) + u8_bytes(x.eff_type) + u8_bytes(x.control_id) + u16_bytes(x.control_flag, o) + u8_bytes(x.control_interval) + u8_bytes(x.control_number) + u8_bytes(x.control_rp) + u8_bytes(x.unknown_x10f) + u16_bytes(x.control_life, o) + u16_bytes(x.unknown_x112, o) + u16_bytes(x.unknown_x114, o) + u16_bytes(x.unknown_x116, o) + u32_bytes(x.control_path_scale.0, o) + u32_bytes(x.control_path_scale.1, o) + u32_bytes(x.control_path_scale.2, o) + u8_bytes(x.control_path_delta_size) + u8_bytes(x.control_path_delta_speed) + u8_bytes(x.control_path_delta_alpha) + u8_bytes(x.control_path_delta_interval) + u8_bytes(x.control_path_random_interval));
        assert(x.wire(o).subrange(37, 38) == u8_bytes(x.control_path_rotation.0));
        lemma_concat_split(u8_bytes(x.path_own) + u8_bytes(x.path_number) + u8_bytes(x.path_start) + u8_bytes(x.path_random) + u8_bytes(x.eff_type) + u8_bytes(x.control_id) + u16_bytes(x.control_flag, o) + u8_bytes(x.control_interval) + u8_bytes(x.control_number) + u8_bytes(x.control_rp) + u8_bytes(x.unknown_x10f) + u16_bytes(x.control_life, o) + u16_bytes(x.unknown_x112, o) + u16_bytes(x.unknown_x114, o) + u16_bytes(x.unknown_x116, o) + u32_bytes(x.control_path_scale.0, o) + u32_bytes(x.control_path_scale.1, o) + u32_bytes(x.control_path_scale.2, o) + u8_bytes(x.control_path_delta_size) + u8_bytes(x.control_path_delta_speed) + u8_bytes(x.control_path_delta_alpha) + u8_bytes(x.control_path_delta_interval), u8_bytes(x.control_path_random_interval));
        lemma_subrange_of_subrange(x.wire(o), 0, 37, 0, 36);
        lemma_subrange_of_subrange(x.wire(o), 0, 37, 36, 37);
        assert(x.wire(o).subrange(0, 36) == u8_bytes(x.path_own) + u8_bytes(x.path_number) + u8_bytes(x.path_start) + u8_bytes(x.path_random) + u8_bytes(x.eff_type) + u8_bytes(x.control_id) + u16_bytes(x.control_flag, o) + u8_bytes(x.control_interval) + u8_bytes(x.control_number) + u8_bytes(x.control_rp) + u8_bytes(x.unknown_x10f) + u16_bytes(x.control_life, o) + u16_bytes(x.unknown_x112, o) + u16_bytes(x.unknown_x114, o) + u16_bytes(x.unknown_x116, o) + u32_bytes(x.control_path_scale.0, o) + u32_bytes(x.control_path_scale.1, o) + u32_bytes(x.control_path_scale.2, o) + u8_bytes(x.control_path_delta_size) + u8_bytes(x.control_path_delta_speed) + u8_bytes(x.control_path_delta_alpha) + u8_bytes(x.control_path_delta_interval));
        assert(x.wire(o).subrange(36, 37) == u8_bytes(x.control_path_random_interval));
        lemma_concat_split(u8_bytes(x.path_own) + u8_bytes(x.path_number) + u8_bytes(x.path_start) + u8_bytes(x.path_random) + u8_bytes(x.eff_type) + u8_bytes(x.control_id) + u16_bytes(x.control_flag, o) + u8_bytes(x.control_interval) + u8_bytes(x.control_number) + u8_bytes(x.control_rp) + u8_bytes(x.unknown_x10f) + u16_bytes(x.control_life, o) + u16_bytes(x.unknown_x112, o) + u16_bytes(x.unknown_x114, o) + u16_bytes(x.unknown_x116, o) + u32_bytes(x.control_path_scale.0, o) + u32_bytes(x.control_path_scale.1, o) + u32_bytes(x.control_path_scale.2, o) + u8_bytes(x.control_path_delta_size) + u8_bytes(x.control_path_delta_speed) + u8_bytes(x.control_path_delta_alpha), u8_bytes(x.control_path_delta_interval));
        lemma_subrange_of_subrange(x.wire(o), 0, 36, 0, 35);
        lemma_subrange_of_subrange(x.wire(o), 0, 36, 35, 36);
        assert(x.wire(o).subrange(0, 35) == u8_bytes(x.path_own) + u8_bytes(x.path_number) + u8_bytes(x.path_start) + u8_bytes(x.path_random) + u8_bytes(x.eff_type) + u8_bytes(x.control_id) + u16_bytes(x.control_flag, o) + u8_bytes(x.control_interval) + u8_bytes(x.control_number) + u8_bytes(x.control_rp) + u8_bytes(x.unknown_x10f) + u16_bytes(x.control_life, o) + u16_bytes(x.unknown_x112, o) + u16_bytes(x.unknown_x114, o) + u16_bytes(x.unknown_x116, o) + u32_bytes(x.control_path_scale.0, o) + u32_bytes(x.control_path_scale.1, o) + u32_bytes(x.control_path_scale.2, o) + u8_bytes(x.control_path_delta_size) + u8_bytes(x.control_path_delta_speed) + u8_bytes(x.control_path_delta_alpha));
        assert(x.wire(o).subrange(35, 36) == u8_bytes(x.control_path_delta_interval));
        lemma_concat_split(u8_bytes(x.path_own) + u8_bytes(x.path_number) + u8_bytes(x.path_start) + u8_bytes(x.path_random) + u8_bytes(x.eff_type) + u8_bytes(x.control_id) + u16_bytes(x.control_flag, o) + u8_bytes(x.control_interval) + u8_bytes(x.control_number) + u8_bytes(x.control_rp) + u8_bytes(x.unknown_x10f) + u16_bytes(x.control_life, o) + u16_bytes(x.unknown_x112, o) + u16_bytes(x.unknown_x114, o) + u16_bytes(x.unknown_x116, o) + u32_bytes(x.control_path_scale.0, o) + u32_bytes(x.control_path_scale.1, o) + u32_bytes(x.control_path_scale.2, o) + u8_bytes(x.control_path_delta_size) + u8_bytes(x.control_path_delta_speed), u8_bytes(x.control_path_delta_alpha));
        lemma_subrange_of_subrange(x.wire(o), 0, 35, 0, 34);
        lemma_subrange_of_subrange(x.wire(o), 0, 35, 34, 35);
        assert(x.wire(o).subrange(0, 34) == u8_bytes(x.path_own) + u8_bytes(x.path_number) + u8_bytes(x.path_start) + u8_bytes(x.path_random) + u8_bytes(x.eff_type) + u8_bytes(x.control_id) + u16_bytes(x.control_flag, o) + u8_bytes(x.control_interval) + u8_bytes(x.control_number) + u8_bytes(x.control_rp) + u8_bytes(x.unknown_x10f) + u16_bytes(x.control_life, o) + u16_bytes(x.unknown_x112, o) + u16_bytes(x.unknown_x114, o) + u16_bytes(x.unknown_x116, o) + u32_bytes(x.control_path_scale.0, o) + u32_bytes(x.control_path_scale.1, o) + u32_bytes(x.control_path_scale.2, o) + u8_bytes(x.control_path_delta_size) + u8_bytes(x.control_path_delta_speed));
        assert(x.wire(o).subrange(34, 35) == u8_bytes(x.control_path_delta_alpha));
        lemma_concat_split(u8_bytes(x.path_own) + u8_bytes(x.path_number) + u8_bytes(x.path_start) + u8_bytes(x.path_random) + u8_bytes(x.eff_type) + u8_bytes(x.control_id) + u16_bytes(x.control_flag, o) + u8_bytes(x.control_interval) + u8_bytes(x.control_number) + u8_bytes(x.control_rp) + u8_bytes(x.unknown_x10f) + u16_bytes(x.control_life, o) + u16_bytes(x.unknown_x112, o) + u16_bytes(x.unknown_x114, o) + u16_bytes(x.unknown_x116, o) + u32_bytes(x.control_path_scale.0, o) + u32_bytes(x.control_path_scale.1, o) + u32_bytes(x.control_path_scale.2, o) + u8_bytes(x.control_path_delta_size), u8_bytes(x.control_path_delta_speed));
        lemma_subrange_of_subrange(x.wire(o), 0, 34, 0, 33);
        lemma_subrange_of_subrange(x.wire(o), 0, 34, 33, 34);
        assert(x.wire(o).subrange(0, 33) == u8_bytes(x.path_own) + u8_bytes(x.path_number) + u8_bytes(x.path_start) + u8_bytes(x.path_random) + u8_bytes(x.eff_type) + u8_bytes(x.control_id) + u16_bytes(x.control_flag, o) + u8_bytes(x.control_interval) + u8_bytes(x.control_number) + u8_bytes(x.control_rp) + u8_bytes(x.unknown_x10f) + u16_bytes(x.control_life, o) + u16_bytes(x.unknown_x112, o) + u16_bytes(x.unknown_x114, o) + u16_bytes(x.unknown_x116, o) + u32_bytes(x.control_path_scale.0, o) + u32_bytes(x.control_path_scale.1, o) + u32_bytes(x.control_path_scale.2, o) + u8_bytes(x.control_path_delta_size));
        assert(x.wire(o).subrange(33, 34) == u8_bytes(x.control_path_delta_speed));
        lemma_concat_split(u8_bytes(x.path_own) + u8_bytes(x.path_number) + u8_bytes(x.path_start) + u8_bytes(x.path_random) + u8_bytes(x.eff_type) + u8_bytes(x.control_id) + u16_bytes(x.control_flag, o) + u8_bytes(x.control_interval) + u8_bytes(x.control_number) + u8_bytes(x.control_rp) + u8_bytes(x.unknown_x10f) + u16_bytes(x.control_life, o) + u16_bytes(x.unknown_x112, o) + u16_bytes(x.unknown_x114, o) + u16_bytes(x.unknown_x116, o) + u32_bytes(x.control_path_scale.0, o) + u32_bytes(x.control_path_scale.1, o) + u32_bytes(x.control_path_scale.2, o), u8_bytes(x.control_path_delta_size));
        lemma_subrange_of_subrange(x.wire(o), 0, 33, 0, 32);
        lemma_subrange_of_subrange(x.wire(o), 0, 33, 32, 33);
        assert(x.wire(o).subrange(0, 32) == u8_bytes(x.path_own) + u8_bytes(x.path_number) + u8_bytes(x.path_start) + u8_bytes(x.path_random) + u8_bytes(x.eff_type) + u8_bytes(x.control_id) + u16_bytes(x.control_flag, o) + u8_bytes(x.control_interval) + u8_bytes(x.control_number) + u8_bytes(x.control_rp) + u8_bytes(x.unknown_x10f) + u16_bytes(x.control_life, o) + u16_bytes(x.unknown_x112, o) + u16_bytes(x.unknown_x114, o) + u16_bytes(x.unknown_x116, o) + u32_bytes(x.control_path_scale.0, o) + u32_bytes(x.control_path_scale.1, o) + u32_bytes(x.control_path_scale.2, o));
        assert(x.wire(o).subrange(32, 33) == u8_bytes(x.control_path_delta_size));
        lemma_concat_split(u8_bytes(x.path_own) + u8_bytes(x.path_number) + u8_bytes(x.path_start) + u8_bytes(x.path_random) + u8_bytes(x.eff_type) + u8_bytes(x.control_id) + u16_bytes(x.control_flag, o) + u8_bytes(x.control_interval) + u8_bytes(x.control_number) + u8_bytes(x.control_rp) + u8_bytes(x.unknown_x10f) + u16_bytes(x.control_life, o) + u16_bytes(x.unknown_x112, o) + u16_bytes(x.unknown_x114, o) + u16_bytes(x.unknown_x116, o) + u32_bytes(x.control_path_scale.0, o) + u32_bytes(x.control_path_scale.1, o), u32_bytes(x.control_path_scale.2, o));
        lemma_subrange_of_subrange(x.wire(o), 0, 32, 0, 28);
        lemma_subrange_of_subrange(x.wire(o), 0, 32, 28, 32);
        assert(x.wire(o).subrange(0, 28) == u8_bytes(x.path_own) + u8_bytes(x.path_number) + u8_bytes(x.path_start) + u8_bytes(x.path_random) + u8_bytes(x.eff_type) + u8_bytes(x.control_id) + u16_bytes(x.control_flag, o) + u8_bytes(x.control_interval) + u8_bytes(x.control_number) + u8_bytes(x.control_rp) + u8_bytes(x.unknown_x10f) + u16_bytes(x.control_life, o) + u16_bytes(x.unknown_x112, o) + u16_bytes(x.unknown_x114, o) + u16_bytes(x.unknown_x116, o) + u32_bytes(x.control_path_scale.0, o) + u32_bytes(x.control_path_scale.1, o));
        assert(x.wire(o).subrange(28, 32) == u32_bytes(x.control_path_scale.2, o));
        lemma_concat_split(u8_bytes(x.path_own) + u8_bytes(x.path_number) + u8_bytes(x.path_start) + u8_bytes(x.path_random) + u8_bytes(x.eff_type) + u8_bytes(x.control_id) + u16_bytes(x.control_flag, o) + u8_bytes(x.control_interval) + u8_bytes(x.control_number) + u8_bytes(x.control_rp) + u8_bytes(x.unknown_x10f) + u16_bytes(x.control_life, o) + u16_bytes(x.unknown_x112, o) + u16_bytes(x.unknown_x114, o) + u16_bytes(x.unknown_x116, o) + u32_bytes(x.control_path_scale.0, o), u32_bytes(x.control_path_scale.1, o));
        lemma_subrange_of_subrange(x.wire(o), 0, 28, 0, 24);
        lemma_subrange_of_subrange(x.wire(o), 0, 28, 24, 28);
        assert(x.wire(o).subrange(0, 24) == u8_bytes(x.path_own) + u8_bytes(x.path_number) + u8_bytes(x.path_start) + u8_bytes(x.path_random) + u8_bytes(x.eff_type) + u8_bytes(x.control_id) + u16_bytes(x.control_flag, o) + u8_bytes(x.control_interval) + u8_bytes(x.control_number) + u8_bytes(x.control_rp) + u8_bytes(x.unknown_x10f) + u16_bytes(x.control_life, o) + u16_bytes(x.unknown_x112, o) + u16_bytes(x.unknown_x114, o) + u16_bytes(x.unknown_x116, o) + u32_bytes(x.control_path_scale.0, o));
        assert(x.wire(o).subrange(24, 28) == u32_bytes(x.control_path_scale.1, o));
        lemma_concat_split(u8_bytes(x.path_own) + u8_bytes(x.path_number) + u8_bytes(x.path_start) + u8_bytes(x.path_random) + u8_bytes(x.eff_type) + u8_bytes(x.control_id) + u16_bytes(x.control_flag, o) + u8_bytes(x.control_interval) + u8_bytes(x.control_number) + u8_bytes(x.control_rp) + u8_bytes(x.unknown_x10f) + u16_bytes(x.control_life, o) + u16_bytes(x.unknown_x112, o) + u16_bytes(x.unknown_x114, o) + u16_bytes(x.unknown_x116, o), u32_bytes(x.control_path_scale.0, o));
        lemma_subrange_of_subrange(x.wire(o), 0, 24, 0, 20);
        lemma_subrange_of_subrange(x.wire(o), 0, 24, 20, 24);
        assert(x.wire(o).subrange(0, 20) == u8_bytes(x.path_own) + u8_bytes(x.path_number) + u8_bytes(x.path_start) + u8_bytes(x.path_random) + u8_bytes(x.eff_type) + u8_bytes(x.control_id) + u16_bytes(x.control_flag, o) + u8_bytes(x.control_interval) + u8_bytes(x.control_number) + u8_bytes(x.control_rp) + u8_bytes(x.unknown_x10f) + u16_bytes(x.control_life, o) + u16_bytes(x.unknown_x112, o) + u16_bytes(x.unknown_x114, o) + u16_bytes(x.unknown_x116, o));
        assert(x.wire(o).subrange(20, 24) == u32_bytes(x.control_path_scale.0, o));
        lemma_concat_split(u8_bytes(x.path_own) + u8_bytes(x.path_number) + u8_bytes(x.path_start) + u8_bytes(x.path_random) + u8_bytes(x.eff_type) + u8_bytes(x.control_id) + u16_bytes(x.control_flag, o) + u8_bytes(x.control_interval) + u8_bytes(x.control_number) + u8_bytes(x.control_rp) + u8_bytes(x.unknown_x10f) + u16_bytes(x.control_life, o) + u16_bytes(x.unknown_x112, o) + u16_bytes(x.unknown_x114, o), u16_bytes(x.unknown_x116, o));
        lemma_subrange_of_subrange(x.wire(o), 0, 20, 0, 18);
        lemma_subrange_of_subrange(x.wire(o), 0, 20, 18, 20);
        assert(x.wire(o).subrange(0, 18) == u8_bytes(x.path_own) + u8_bytes(x.path_number) + u8_bytes(x.path_start) + u8_bytes(x.path_random) + u8_bytes(x.eff_type) + u8_bytes(x.control_id) + u16_bytes(x.control_flag, o) + u8_bytes(x.control_interval) + u8_bytes(x.control_number) + u8_bytes(x.control_rp) + u8_bytes(x.unknown_x10f) + u16_bytes(x.control_life, o) + u16_bytes(x.unknown_x112, o) + u16_bytes(x.unknown_x114, o));
        assert(x.wire(o).subrange(18, 20) == u16_bytes(x.unknown_x116, o));
        lemma_concat_split(u8_bytes(x.path_own) + u8_bytes(x.path_number) + u8_bytes(x.path_start) + u8_bytes(x.path_random) + u8_bytes(x.eff_type) + u8_bytes(x.control_id) + u16_bytes(x.control_flag, o) + u8_bytes(x.control_interval) + u8_bytes(x.control_number) + u8_bytes(x.control_rp) + u8_bytes(x.unknown_x10f) + u16_bytes(x.control_life, o) + u16_bytes(x.unknown_x112, o), u16_bytes(x.unknown_x114, o));
        lemma_subrange_of_subrange(x.wire(o), 0, 18, 0, 16);
        lemma_subrange_of_subrange(x.wire(o), 0, 18, 16, 18);
        assert(x.wire(o).subrange(0, 16) == u8_bytes(x.path_own) + u8_bytes(x.path_number) + u8_bytes(x.path_start) + u8_bytes(x.path_random) + u8_bytes(x.eff_type) + u8_bytes(x.control_id) + u16_bytes(x.control_flag, o) + u8_bytes(x.control_interval) + u8_bytes(x.control_number) + u8_bytes(x.control_rp) + u8_bytes(x.unknown_x10f) + u16_bytes(x.control_life, o) + u16_bytes(x.unknown_x112, o));
        assert(x.wire(o).subrange(16, 18) == u16_bytes(x.unknown_x114, o));
        lemma_concat_split(u8_bytes(x.path_own) + u8_bytes(x.path_number) + u8_bytes(x.path_start) + u8_bytes(x.path_random) + u8_bytes(x.eff_type) + u8_bytes(x.control_id) + u16_bytes(x.control_flag, o) + u8_bytes(x.control_interval) + u8_bytes(x.control_number) + u8_bytes(x.control_rp) + u8_bytes(x.unknown_x10f) + u16_bytes(x.control_life, o), u16_bytes(x.unknown_x112, o));
        lemma_subrange_of_subrange(x.wire(o), 0, 16, 0, 14);
        lemma_subrange_of_subrange(x.wire(o), 0, 16, 14, 16);
        assert(x.wire(o).subrange(0, 14) == u8_bytes(x.path_own) + u8_bytes(x.path_number) + u8_bytes(x.path_start) + u8_bytes(x.path_random) + u8_bytes(x.eff_type) + u8_bytes(x.control_id) + u16_bytes(x.control_flag, o) + u8_bytes(x.control_interval) + u8_bytes(x.control_number) + u8_bytes(x.control_rp) + u8_bytes(x.unknown_x10f) + u16_bytes(x.control_life, o));
        assert(x.wire(o).subrange(14, 16) == u16_bytes(x.unknown_x112, o));
        lemma_concat_split(u8_bytes(x.path_own) + u8_bytes(x.path_number) + u8_bytes(x.path_start) + u8_bytes(x.path_random) + u8_bytes(x.eff_type) + u8_bytes(x.control_id) + u16_bytes(x.control_flag, o) + u8_bytes(x.control_interval) + u8_bytes(x.control_number) + u8_bytes(x.control_rp) + u8_bytes(x.unknown_x10f), u16_bytes(x.control_life, o));
        lemma_subrange_of_subrange(x.wire(o), 0, 14, 0, 12);
        lemma_subrange_of_subrange(x.wire(o), 0, 14, 12, 14);
        assert(x.wire(o).subrange(0, 12) == u8_bytes(x.path_own) + u8_bytes(x.path_number) + u8_bytes(x.path_start) + u8_bytes(x.path_random) + u8_bytes(x.eff_type) + u8_bytes(x.control_id) + u16_bytes(x.control_flag, o) + u8_bytes(x.control_interval) + u8_bytes(x.control_number) + u8_bytes(x.control_rp) + u8_bytes(x.unknown_x10f));
        assert(x.wire(o).subrange(12, 14) == u16_bytes(x.control_life, o));
        lemma_concat_split(u8_bytes(x.path_own) + u8_bytes(x.path_number) + u8_bytes(x.path_start) + u8_bytes(x.path_random) + u8_bytes(x.eff_type) + u8_bytes(x.control_id) + u16_bytes(x.control_flag, o) + u8_bytes(x.control_interval) + u8_bytes(x.control_number) + u8_bytes(x.control_rp), u8_bytes(x.unknown_x10f));
        lemma_subrange_of_subrange(x.wire(o), 0, 12, 0, 11);
        lemma_subrange_of_subrange(x.wire(o), 0, 12, 11, 12);
        assert(x.wire(o).subrange(0, 11) == u8_bytes(x.path_own) + u8_bytes(x.path_number) + u8_bytes(x.path_start) + u8_bytes(x.path_random) + u8_bytes(x.eff_type) + u8_bytes(x.control_id) + u16_bytes(x.control_flag, o) + u8_bytes(x.control_interval) + u8_bytes(x.control_number) + u8_bytes(x.control_rp));
        assert(x.wire(o).subrange(11, 12) == u8_bytes(x.unknown_x10f));
        lemma_concat_split(u8_bytes(x.path_own) + u8_bytes(x.path_number) + u8_bytes(x.path_start) + u8_bytes(x.path_random) + u8_bytes(x.eff_type) + u8_bytes(x.control_id) + u16_bytes(x.control_flag, o) + u8_bytes(x.control_interval) + u8_bytes(x.control_number), u8_bytes(x.control_rp));
        lemma_subrange_of_subrange(x.wire(o), 0, 11, 0, 10);
        lemma_subrange_of_subrange(x.wire(o), 0, 11, 10, 11);
        assert(x.wire(o).subrange(0, 10) == u8_bytes(x.path_own) + u8_bytes(x.path_number) + u8_bytes(x.path_start) + u8_bytes(x.path_random) + u8_bytes(x.eff_type) + u8_bytes(x.control_id) + u16_bytes(x.control_flag, o) + u8_bytes(x.control_interval) + u8_bytes(x.control_number));
        assert(x.wire(o).subrange(10, 11) == u8_bytes(x.control_rp));
        lemma_concat_split(u8_bytes(x.path_own) + u8_bytes(x.path_number) + u8_bytes(x.path_start) + u8_bytes(x.path_random) + u8_bytes(x.eff_type) + u8_bytes(x.control_id) + u16_bytes(x.control_flag, o) + u8_bytes(x.control_interval), u8_bytes(x.control_number));
        lemma_subrange_of_subrange(x.wire(o), 0, 10, 0, 9);
        lemma_subrange_of_subrange(x.wire(o), 0, 10, 9, 10);
        assert(x.wire(o).subrange(0, 9) == u8_bytes(x.path_own) + u8_bytes(x.path_number) + u8_bytes(x.path_start) + u8_bytes(x.path_random) + u8_bytes(x.eff_type) + u8_bytes(x.control_id) + u16_bytes(x.control_flag, o) + u8_bytes(x.control_interval));
        assert(x.wire(o).subrange(9, 10) == u8_bytes(x.control_number));
        lemma_concat_split(u8_bytes(x.path_own) + u8_bytes(x.path_number) + u8_bytes(x.path_start) + u8_bytes(x.path_random) + u8_bytes(x.eff_type) + u8_bytes(x.control_id) + u16_bytes(x.control_flag, o), u8_bytes(x.control_interval));
        lemma_subrange_of_subrange(x.wire(o), 0, 9, 0, 8);
        lemma_subrange_of_subrange(x.wire(o), 0, 9, 8, 9);
        assert(x.wire(o).subrange(0, 8) == u8_bytes(x.path_own) + u8_bytes(x.path_number) + u8_bytes(x.path_start) + u8_bytes(x.path_random) + u8_bytes(x.eff_type) + u8_bytes(x.control_id) + u16_bytes(x.control_flag, o));
        assert(x.wire(o).subrange(8, 9) == u8_bytes(x.control_interval));
        lemma_concat_split(u8_bytes(x.path_own) + u8_bytes(x.path_number) + u8_bytes(x.path_start) + u8_bytes(x.path_random) + u8_bytes(x.eff_type) + u8_bytes(x.control_id), u16_bytes(x.control_flag, o));
        lemma_subrange_of_subrange(x.wire(o), 0, 8, 0, 6);
        lemma_subrange_of_subrange(x.wire(o), 0, 8, 6, 8);
        assert(x.wire(o).subrange(0, 6) == u8_bytes(x.path_own) + u8_bytes(x.path_number) + u8_bytes(x.path_start) + u8_bytes(x.path_random) + u8_bytes(x.eff_type) + u8_bytes(x.control_id));
        assert(x.wire(o).subrange(6, 8) == u16_bytes(x.control_flag, o));
        lemma_concat_split(u8_bytes(x.path_own) + u8_bytes(x.path_number) + u8_bytes(x.path_start) + u8_bytes(x.path_random) + u8_bytes(x.eff_type), u8_bytes(x.control_id));
        lemma_subrange_of_subrange(x.wire(o), 0, 6, 0, 5);
        lemma_subrange_of_subrange(x.wire(o), 0, 6, 5, 6);
        assert(x.wire(o).subrange(0, 5) == u8_bytes(x.path_own) + u8_bytes(x.path_number) + u8_bytes(x.path_start) + u8_bytes(x.path_random) + u8_bytes(x.eff_type));
        assert(x.wire(o).subrange(5, 6) == u8_bytes(x.control_id));
        lemma_concat_split(u8_bytes(x.path_own) + u8_bytes(x.path_number) + u8_bytes(x.path_start) + u8_bytes(x.path_random), u8_bytes(x.eff_type));
        lemma_subrange_of_subrange(x.wire(o), 0, 5, 0, 4);
        lemma_subrange_of_subrange(x.wire(o), 0, 5, 4, 5);
        assert(x.wire(o).subrange(0, 4) == u8_bytes(x.path_own) + u8_bytes(x.path_number) + u8_bytes(x.path_start) + u8_bytes(x.path_random));
        assert(x.wire(o).subrange(4, 5) == u8_bytes(x.eff_type));
        lemma_concat_split(u8_bytes(x.path_own) + u8_bytes(x.path_number) + u8_bytes(x.path_start), u8_bytes(x.path_random));
        lemma_subrange_of_subrange(x.wire(o), 0, 4, 0, 3);
        lemma_subrange_of_subrange(x.wire(o), 0, 4, 3, 4);
        assert(x.wire(o).subrange(0, 3) == u8_bytes(x.path_own) + u8_bytes(x.path_number) + u8_bytes(x.path_start));
        assert(x.wire(o).subrange(3, 4) == u8_bytes(x.path_random));
        lemma_concat_split(u8_bytes(x.path_own) + u8_bytes(x.path_number), u8_bytes(x.path_start));
        lemma_subrange_of_subrange(x.wire(o), 0, 3, 0, 2);
        lemma_subrange_of_subrange(x.wire(o), 0, 3, 2, 3);
        assert(x.wire(o).subrange(0, 2) == u8_bytes(x.path_own) + u8_bytes(x.path_number));
        assert(x.wire(o).subrange(2, 3) == u8_bytes(x.path_start));
        lemma_concat_split(u8_bytes(x.path_own), u8_bytes(x.path_number));
        lemma_subrange_of_subrange(x.wire(o), 0, 2, 0, 1);
        lemma_subrange_of_subrange(x.wire(o), 0, 2, 1, 2);
        assert(x.wire(o).subrange(0, 1) == u8_bytes(x.path_own));
        assert(x.wire(o).subrange(1, 2) == u8_bytes(x.path_number));
        lemma_subrange_of_subrange(data, i, i + 40, 0, 1);
        assert(data.subrange(i, i + 1) == u8_bytes(x.path_own));
        lemma_u8_at_of_bytes(data, i, x.path_own);
        lemma_subrange_of_subrange(data, i, i + 40, 1, 2);
        assert(data.subrange(i + 1, i + 2) == u8_bytes(x.path_number));
        lemma_u8_at_of_bytes(data, i + 1, x.path_number);
        lemma_subrange_of_subrange(data, i, i + 40, 2, 3);
        assert(data.subrange(i + 2, i + 3) == u8_bytes(x.path_start));
        lemma_u8_at_of_bytes(data, i + 2, x.path_start);
        lemma_subrange_of_subrange(data, i, i + 40, 3, 4);
        assert(data.subrange(i + 3, i + 4) == u8_bytes(x.path_random));
        lemma_u8_at_of_bytes(data, i + 3, x.path_random);
        lemma_subrange_of_subrange(data, i, i + 40, 4, 5);
        assert(data.subrange(i + 4, i + 5) == u8_bytes(x.eff_type));
        lemma_u8_at_of_bytes(data, i + 4, x.eff_type);
        lemma_subrange_of_subrange(data, i, i + 40, 5, 6);
        assert(data.subrange(i + 5, i + 6) == u8_bytes(x.control_id));
        lemma_u8_at_of_bytes(data, i + 5, x.control_id);
        lemma_subrange_of_subrange(data, i, i + 40, 6, 8);
        assert(data.subrange(i + 6, i + 8) == u16_bytes(x.control_flag, o));
        lemma_u16_at_of_bytes(data, i + 6, x.control_flag, o);
        lemma_subrange_of_subrange(data, i, i + 40, 8, 9);
        assert(data.subrange(i + 8, i + 9) == u8_bytes(x.control_interval));
        lemma_u8_at_of_bytes(data, i + 8, x.control_interval);
        lemma_subrange_of_subrange(data, i, i + 40, 9, 10);
        assert(data.subrange(i + 9, i + 10) == u8_bytes(x.control_number));
        lemma_u8_at_of_bytes(data, i + 9, x.control_number);
        lemma_subrange_of_subrange(data, i, i + 40, 10, 11);
        assert(data.subrange(i + 10, i + 11) == u8_bytes(x.control_rp));
        lemma_u8_at_of_bytes(data, i + 10, x.control_rp);
        lemma_subrange_of_subrange(data, i, i + 40, 11, 12);
        assert(data.subrange(i + 11, i + 12) == u8_bytes(x.unknown_x10f));
        lemma_u8_at_of_bytes(data, i + 11, x.unknown_x10f);
        lemma_subrange_of_subrange(data, i, i + 40, 12, 14);
        assert(data.subrange(i + 12, i + 14) == u16_bytes(x.control_life, o));
        lemma_u16_at_of_bytes(data, i + 12, x.control_life, o);
        lemma_subrange_of_subrange(data, i, i + 40, 14, 16);
        assert(data.subrange(i + 14, i + 16) == u16_bytes(x.unknown_x112, o));
        lemma_u16_at_of_bytes(data, i + 14, x.unknown_x112, o);
        lemma_subrange_of_subrange(data, i, i + 40, 16, 18);
        assert(data.subrange(i + 16, i + 18) == u16_bytes(x.unknown_x114, o));
        lemma_u16_at_of_bytes(data, i + 16, x.unknown_x114, o);
        lemma_subrange_of_subrange(data, i, i + 40, 18, 20);
        assert(data.subrange(i + 18, i + 20) == u16_bytes(x.unknown_x116, o));
        lemma_u16_at_of_bytes(data, i + 18, x.unknown_x116, o);
        lemma_subrange_of_subrange(data, i, i + 40, 20, 24);
        assert(data.subrange(i + 20, i + 24) == u32_bytes(x.control_path_scale.0, o));
        lemma_u32_at_of_bytes(data, i + 20, x.control_path_scale.0, o);
        lemma_subrange_of_subrange(data, i, i + 40, 24, 28);
        assert(data.subrange(i + 24, i + 28) == u32_bytes(x.control_path_scale.1, o));
        lemma_u32_at_of_bytes(data, i + 24, x.control_path_scale.1, o);
        lemma_subrange_of_subrange(data, i, i + 40, 28, 32);
        assert(data.subrange(i + 28, i + 32) == u32_bytes(x.control_path_scale.2, o));
        lemma_u32_at_of_bytes(data, i + 28, x.control_path_scale.2, o);
        lemma_subrange_of_subrange(data, i, i + 40, 32, 33);
        assert(data.subrange(i + 32, i + 33) == u8_bytes(x.control_path_delta_size));
        lemma_u8_at_of_bytes(data, i + 32, x.control_path_delta_size);
        lemma_subrange_of_subrange(data, i, i + 40, 33, 34);
        assert(data.subrange(i + 33, i + 34) == u8_bytes(x.control_path_delta_speed));
        lemma_u8_at_of_bytes(data, i + 33, x.control_path_delta_speed);
        lemma_subrange_of_subrange(data, i, i + 40, 34, 35);
        assert(data.subrange(i + 34, i + 35) == u8_bytes(x.control_path_delta_alpha));
        lemma_u8_at_of_bytes(data, i + 34, x.control_path_delta_alpha);
        lemma_subrange_of_subrange(data, i, i + 40, 35, 36);
        assert(data.subrange(i + 35, i + 36) == u8_bytes(x.control_path_delta_interval));
        lemma_u8_at_of_bytes(data, i + 35, x.control_path_delta_interval);
        lemma_subrange_of_subrange(data, i, i + 40, 36, 37);
        assert(data.subrange(i + 36, i + 37) == u8_bytes(x.control_path_random_interval));
        lemma_u8_at_of_bytes(data, i + 36, x.control_path_random_interval);
        lemma_subrange_of_subrange(data, i, i + 40, 37, 38);
        assert(data.subrange(i + 37, i + 38) == u8_bytes(x.control_path_rotation.0));
        lemma_u8_at_of_bytes(data, i + 37, x.control_path_rotation.0);
        lemma_subrange_of_subrange(data, i, i + 40, 38, 39);
        assert(data.subrange(i + 38, i + 39) == u8_bytes(x.control_path_rotation.1));
        lemma_u8_at_of_bytes(data, i + 38, x.control_path_rotation.1);
        lemma_subrange_of_subrange(data, i, i + 40, 39, 40);
        assert(data.subrange(i + 39, i + 40) == u8_bytes(x.control_path_flag));
        lemma_u8_at_of_bytes(data, i + 39, x.control_path_flag);
    }

    /// Decode one group at `*pos`; the caller has checked that all
    /// 40 bytes are there.
    #[verifier::rlimit(60)]
    pub fn read(data: &Vec<u8>, pos: &mut usize, o: ByteOrder) -> (g: EffectControl)
        requires
            *old(pos) + 40 <= data@.len(),
        ensures
            *final(pos) == *old(pos) + 40,
            g == EffectControl::decoded_at(data@, *old(pos) as int, o),
            g.wire(o) == data@.subrange(*old(pos) as int, *old(pos) + 40),
    {
        let path_own = take_u8(data, pos);
        let path_number = take_u8(data, pos);
        let path_start = take_u8(data, pos);
        let path_random = take_u8(data, pos);
        let eff_type = take_u8(data, pos);
        let control_id = take_u8(data, pos);
        let control_flag = take_u16(data, pos, o);
        let control_interval = take_u8(data, pos);
        let control_number = take_u8(data, pos);
        let control_rp = take_u8(data, pos);
        let unknown_x10f = take_u8(data, pos);
        let control_life = take_u16(data, pos, o);
        let unknown_x112 = take_u16(data, pos, o);
        let unknown_x114 = take_u16(data, pos, o);
        let unknown_x116 = take_u16(data, pos, o);
        let control_path_scale_0 = take_u32(data, pos, o);
        let control_path_scale_1 = take_u32(data, pos, o);
        let control_path_scale_2 = take_u32(data, pos, o);
        let control_path_delta_size = take_u8(data, pos);
        let control_path_delta_speed = take_u8(data, pos);
        let control_path_delta_alpha = take_u8(data, pos);
        let control_path_delta_interval = take_u8(data, pos);
        let control_path_random_interval = take_u8(data, pos);
        let control_path_rotation_0 = take_u8(data, pos);
        let control_path_rotation_1 = take_u8(data, pos);
        let control_path_flag = take_u8(data, pos);
        let g = EffectControl {
            path_own,
            path_number,
            path_start,
            path_random,
            eff_type,
            control_id,
            control_flag,
            control_interval,
            control_number,
            control_rp,
            unknown_x10f,
            control_life,
            unknown_x112,
            unknown_x114,
            unknown_x116,
            control_path_scale: (control_path_scale_0, control_path_scale_1, control_path_scale_2),
            control_path_delta_size,
            control_path_delta_speed,
            control_path_delta_alpha,
            control_path_delta_interval,
            control_path_random_interval,
            control_path_rotation: (control_path_rotation_0, control_path_rotation_1),
            control_path_flag,
        };
        proof {
            let p = *old(pos) as int;
            lemma_concat_subrange(data@, p, p + 1, p + 2);
            lemma_concat_subrange(data@, p, p + 2, p + 3);
            lemma_concat_subrange(data@, p, p + 3, p + 4);
            lemma_concat_subrange(data@, p, p + 4, p + 5);
            lemma_concat_subrange(data@, p, p + 5, p + 6);
            lemma_concat_subrange(data@, p, p + 6, p + 8);
            lemma_concat_subrange(data@, p, p + 8, p + 9);
            lemma_concat_subrange(data@, p, p + 9, p + 10);
            lemma_concat_subrange(data@, p, p + 10, p + 11);
            lemma_concat_subrange(data@, p, p + 11, p + 12);
            lemma_concat_subrange(data@, p, p + 12, p + 14);
            lemma_concat_subrange(data@, p, p + 14, p + 16);
            lemma_concat_subrange(data@, p, p + 16, p + 18);
            lemma_concat_subrange(data@, p, p + 18, p + 20);
            lemma_concat_subrange(data@, p, p + 20, p + 24);
            lemma_concat_subrange(data@, p, p + 24, p + 28);
            lemma_concat_subrange(data@, p, p + 28, p + 32);
            lemma_concat_subrange(data@, p, p + 32, p + 33);
            lemma_concat_subrange(data@, p, p + 33, p + 34);
            lemma_concat_subrange(data@, p, p + 34, p + 35);
            lemma_concat_subrange(data@, p, p + 35, p + 36);
            lemma_concat_subrange(data@, p, p + 36, p + 37);
            lemma_concat_subrange(data@, p, p + 37, p + 38);
            lemma_concat_subrange(data@, p, p + 38, p + 39);
            lemma_concat_subrange(data@, p, p + 39, p + 40);
            assert(g.wire(o) == data@.subrange(p, p + 40));
        }
        g
    }

    /// Encode this group, appending its 40 wire bytes to `out`.
    #[verifier::rlimit(60)]
    pub fn write(&self, out: &mut Vec<u8>, o: ByteOrder)
        ensures
            final(out)@ == old(out)@ + self.wire(o),
    {
        put_u8(out, self.path_own);
        put_u8(out, self.path_number);
        put_u8(out, self.path_start);
        put_u8(out, self.path_random);
        put_u8(out, self.eff_type);
        put_u8(out, self.control_id);
        put_u16(out, self.control_flag, o);
        put_u8(out, self.control_interval);
        put_u8(out, self.control_number);
        put_u8(out, self.control_rp);
        put_u8(out, self.unknown_x10f);
        put_u16(out, self.control_life, o);
        put_u16(out, self.unknown_x112, o);
        put_u16(out, self.unknown_x114, o);
        put_u16(out, self.unknown_x116, o);
        put_u32(out, self.control_path_scale.0, o);
        put_u32(out, self.control_path_scale.1, o);
        put_u32(out, self.control_path_scale.2, o);
        put_u8(out, self.control_path_delta_size);
        put_u8(out, self.control_path_delta_speed);
        put_u8(out, self.control_path_delta_alpha);
        put_u8(out, self.control_path_delta_interval);
        put_u8(out, self.control_path_random_interval);
        put_u8(out, self.control_path_rotation.0);
        put_u8(out, self.control_path_rotation.1);
        put_u8(out, self.control_path_flag);
        proof {
            assert(out@ =~= old(out)@ + self.wire(o));
        }
    }
}

/// The complete effect record. The groups are encoded contiguously in
/// the order of the fields below, 300 wire bytes in all.
#[derive(Clone, Copy, PartialEq, Eq, Debug)]
pub struct Effect {
    pub ident: EffectIdent,
    pub motion: EffectMotion,
    pub rotation: EffectRotation,
    pub shading: EffectShading,
    pub work: EffectWork,
    pub control: EffectControl,
}

impl Effect {
    /// The 300 wire bytes of this record in byte order `o`.
    #[verifier::opaque]
    pub open spec fn wire(self, o: ByteOrder) -> Seq<u8> {
        self.ident.wire(o) + self.motion.wire(o) + self.rotation.wire(o)
            + self.shading.wire(o) + self.work.wire(o) + self.control.wire(o)
    }

    /// The record always occupies 300 wire bytes.
    pub proof fn lemma_wire_len(self, o: ByteOrder)
        ensures
            self.wire(o).len() == 300,
    {
        reveal(Effect::wire);
        self.ident.lemma_wire_len(o);
        self.motion.lemma_wire_len(o);
        self.rotation.lemma_wire_len(o);
        self.shading.lemma_wire_len(o);
        self.work.lemma_wire_len(o);
        self.control.lemma_wire_len(o);
    }

    /// The record stored at byte position `i` of `data` in byte order `o`.
    #[verifier::opaque]
    pub open spec fn decoded_at(data: Seq<u8>, i: int, o: ByteOrder) -> Effect {
        Effect {
            ident: EffectIdent::decoded_at(data, i, o),
            motion: EffectMotion::decoded_at(data, i + 12, o),
            rotation: EffectRotation::decoded_at(data, i + 88, o),
            shading: EffectShading::decoded_at(data, i + 156, o),
            work: EffectWork::decoded_at(data, i + 200, o),
            control: EffectControl::decoded_at(data, i + 260, o),
        }
    }

    /// Decoding any window of `data` that holds this record's wire bytes
    /// yields the record back: the codec loses nothing.
    #[verifier::rlimit(100)]
    pub proof fn lemma_decoded_of_wire(data: Seq<u8>, i: int, x: Effect, o: ByteOrder)
        requires
            0 <= i,
            i + 300 <= data.len(),
            data.subrange(i, i + 300) == x.wire(o),
        ensures
            Effect::decoded_at(data, i, o) == x,
    {
        reveal(Effect::wire);
        reveal(Effect::decoded_at);
        x.ident.lemma_wire_len(o);
        x.motion.lemma_wire_len(o);
        x.rotation.lemma_wire_len(o);
        x.shading.lemma_wire_len(o);
        x.work.lemma_wire_len(o);
        x.control.lemma_wire_len(o);
        assert(x.wire(o).subrange(0, 300) =~= x.wire(o));
        lemma_concat_split(x.ident.wire(o) + x.motion.wire(o) + x.rotation.wire(o) + x.shading.wire(o) + x.work.wire(o), x.control.wire(o));
        assert(x.wire(o).subrange(0, 260) == x.ident.wire(o) + x.motion.wire(o) + x.rotation.wire(o) + x.shading.wire(o) + x.work.wire(o));
        assert(x.wire(o).subrange(260, 300) == x.control.wire(o));
        lemma_concat_split(x.ident.wire(o) + x.motion.wire(o) + x.rotation.wire(o) + x.shading.wire(o), x.work.wire(o));
        lemma_subrange_of_subrange(x.wire(o), 0, 260, 0, 200);
        lemma_subrange_of_subrange(x.wire(o), 0, 260, 200, 260);
        assert(x.wire(o).subrange(0, 200) == x.ident.wire(o) + x.motion.wire(o) + x.rotation.wire(o) + x.shading.wire(o));
        assert(x.wire(o).subrange(200, 260) == x.work.wire(o));
        lemma_concat_split(x.ident.wire(o) + x.motion.wire(o) + x.rotation.wire(o), x.shading.wire(o));
        lemma_subrange_of_subrange(x.wire(o), 0, 200, 0, 156);
        lemma_subrange_of_subrange(x.wire(o), 0, 200, 156, 200);
        assert(x.wire(o).subrange(0, 156) == x.ident.wire(o) + x.motion.wire(o) + x.rotation.wire(o));
        assert(x.wire(o).subrange(156, 200) == x.shading.wire(o));
        lemma_concat_split(x.ident.wire(o) + x.motion.wire(o), x.rotation.wire(o));
        lemma_subrange_of_subrange(x.wire(o), 0, 156, 0, 88);
        lemma_subrange_of_subrange(x.wire(o), 0, 156, 88, 156);
        assert(x.wire(o).subrange(0, 88) == x.ident.wire(o) + x.motion.wire(o));
        assert(x.wire(o).subrange(88, 156) == x.rotation.wire(o));
        lemma_concat_split(x.ident.wire(o), x.motion.wire(o));
        lemma_subrange_of_subrange(x.wire(o), 0, 88, 0, 12);
        lemma_subrange_of_subrange(x.wire(o), 0, 88, 12, 88);
        assert(x.wire(o).subrange(0, 12) == x.ident.wire(o));
        assert(x.wire(o).subrange(12, 88) == x.motion.wire(o));
        lemma_subrange_of_subrange(data, i, i + 300, 0, 12);
        assert(data.subrange(i, i + 12) == x.ident.wire(o));
        EffectIdent::lemma_decoded_of_wire(data, i, x.ident, o);
        lemma_subrange_of_subrange(data, i, i + 300, 12, 88);
        assert(data.subrange(i + 12, i + 88) == x.motion.wire(o));
        EffectMotion::lemma_decoded_of_wire(data, i + 12, x.motion, o);
        lemma_subrange_of_subrange(data, i, i + 300, 88, 156);
        assert(data.subrange(i + 88, i + 156) == x.rotation.wire(o));
        EffectRotation::lemma_decoded_of_wire(data, i + 88, x.rotation, o);
        lemma_subrange_of_subrange(data, i, i + 300, 156, 200);
        assert(data.subrange(i + 156, i + 200) == x.shading.wire(o));
        EffectShading::lemma_decoded_of_wire(data, i + 156, x.shading, o);
        lemma_subrange_of_subrange(data, i, i + 300, 200, 260);
        assert(data.subrange(i + 200, i + 260) == x.work.wire(o));
        EffectWork::lemma_decoded_of_wire(data, i + 200, x.work, o);
        lemma_subrange_of_subrange(data, i, i + 300, 260, 300);
        assert(data.subrange(i + 260, i + 300) == x.control.wire(o));
        EffectControl::lemma_decoded_of_wire(data, i + 260, x.control, o);
    }

    /// Decode one record at `*pos`; the caller has checked that all 300
    /// bytes are there.
    #[verifier::rlimit(80)]
    pub fn read(data: &Vec<u8>, pos: &mut usize, o: ByteOrder) -> (e: Effect)
        requires
            *old(pos) + 300 <= data@.len(),
        ensures
            *final(pos) == *old(pos) + 300,
            e == Effect::decoded_at(data@, *old(pos) as int, o),
            e.wire(o) == data@.subrange(*old(pos) as int, *old(pos) + 300),
    {
        let ident = EffectIdent::read(data, pos, o);
        let motion = EffectMotion::read(data, pos, o);
        let rotation = EffectRotation::read(data, pos, o);
        let shading = EffectShading::read(data, pos, o);
        let work = EffectWork::read(data, pos, o);
        let control = EffectControl::read(data, pos, o);
        let e = Effect { ident, motion, rotation, shading, work, control };
        proof {
            reveal(Effect::wire);
            reveal(Effect::decoded_at);
            let p = *old(pos) as int;
            lemma_concat_subrange(data@, p, p + 12, p + 88);
            lemma_concat_subrange(data@, p, p + 88, p + 156);
            lemma_concat_subrange(data@, p, p + 156, p + 200);
            lemma_concat_subrange(data@, p, p + 200, p + 260);
            lemma_concat_subrange(data@, p, p + 260, p + 300);
            assert(e.wire(o) == data@.subrange(p, p + 300));
        }
        e
    }

    /// Decode one record at `*pos`; `None` exactly when fewer than 300
    /// bytes remain, in which case `*pos` is unchanged.
    pub fn new(data: &Vec<u8>, pos: &mut usize, o: ByteOrder) -> (r: Option<Effect>)
        ensures
            match r {
                Some(e) => {
                    &&& *old(pos) + 300 <= data@.len()
                    &&& *final(pos) == *old(pos) + 300
                    &&& e == Effect::decoded_at(data@, *old(pos) as int, o)
                    &&& e.wire(o) == data@.subrange(*old(pos) as int, *old(pos) + 300)
                }
                None => {
                    &&& *old(pos) + 300 > data@.len()
                    &&& *final(pos) == *old(pos)
                }
            },
    {
        if data.len() < 300 || *pos > data.len() - 300 {
            return None;
        }
        Some(Effect::read(data, pos, o))
    }

    /// Encode this record, appending its 300 wire bytes to `out`. The
    /// error path exists only for interface symmetry: a same-width re-tag
    /// cannot fail, so the result is always `Ok`.
    #[verifier::rlimit(60)]
    pub fn write(&self, out: &mut Vec<u8>, o: ByteOrder) -> (r: Result<(), EffError>)
        ensures
            r is Ok,
            final(out)@ == old(out)@ + self.wire(o),
    {
        self.ident.write(out, o);
        self.motion.write(out, o);
        self.rotation.write(out, o);
        self.shading.write(out, o);
        self.work.write(out, o);
        self.control.write(out, o);
        proof {
            reveal(Effect::wire);
            assert(out@ =~= old(out)@ + self.wire(o));
        }
        Ok(())
    }
}

impl Default for EffectIdent {
    /// The all-zero group.
    fn default() -> (r: EffectIdent)
        ensures
            r == (EffectIdent {
                state_id: 0,
                esp_id: 0,
                texture_id: 0,
                unknown_x03: 0,
                time: 0,
                parent: 0,
                part: 0,
                flags: 0,
            }),
    {
        EffectIdent {
                state_id: 0,
                esp_id: 0,
                texture_id: 0,
                unknown_x03: 0,
                time: 0,
                parent: 0,
                part: 0,
                flags: 0,
        }
    }
}

impl Default for EffectMotion {
    /// The all-zero group.
    fn default() -> (r: EffectMotion)
        ensures
            r == (EffectMotion {
                position: (0, 0, 0),
                random: (0, 0, 0),
                speed: (0, 0, 0),
                delta_speed: 0,
                random_speed: (0, 0, 0),
                acceleration: (0, 0, 0),
                random_acceleration: (0, 0, 0),
            }),
    {
        EffectMotion {
                position: (0, 0, 0),
                random: (0, 0, 0),
                speed: (0, 0, 0),
                delta_speed: 0,
                random_speed: (0, 0, 0),
                acceleration: (0, 0, 0),
                random_acceleration: (0, 0, 0),
        }
    }
}

impl Default for EffectRotation {
    /// The all-zero group.
    fn default() -> (r: EffectRotation)
        ensures
            r == (EffectRotation {
                rotate: (0, 0, 0),
                random_rotate: (0, 0, 0),
                rotate_acceleration: (0, 0, 0),
                random_rotate_acceleration: (0, 0, 0),
                width: 0,
                height: 0,
                random_size: 0,
                grow: 0,
                delta_grow: 0,
            }),
    {
        EffectRotation {
                rotate: (0, 0, 0),
                random_rotate: (0, 0, 0),
                rotate_acceleration: (0, 0, 0),
                random_rotate_acceleration: (0, 0, 0),
                width: 0,
                height: 0,
                random_size: 0,
                grow: 0,
                delta_grow: 0,
        }
    }
}

impl Default for EffectShading {
    /// The all-zero group.
    fn default() -> (r: EffectShading)
        ensures
            r == (EffectShading {
                rgba: (0, 0, 0, 0),
                delta_color: (0, 0, 0, 0),
                delta_color_attack: 0,
                delta_color_start_frame: 0,
                unknown_xb4: 0,
                delta_size_start_frame: 0,
                life_time: 0,
                animation_speed: 0,
                unknown_xbe: 0,
                release_time: 0,
                blend: 0,
                simulation_type: 0,
                simulation_power: 0,
                mask_texture_id: 0,
                value_in: 0,
                value_out: 0,
            }),
    {
        EffectShading {
                rgba: (0, 0, 0, 0),
                delta_color: (0, 0, 0, 0),
                delta_color_attack: 0,
                delta_color_start_frame: 0,
                unknown_xb4: 0,
                delta_size_start_frame: 0,
                life_time: 0,
                animation_speed: 0,
                unknown_xbe: 0,
                release_time: 0,
                blend: 0,
                simulation_type: 0,
                simulation_power: 0,
                mask_texture_id: 0,
                value_in: 0,
                value_out: 0,
        }
    }
}

impl Default for EffectWork {
    /// The all-zero group.
    fn default() -> (r: EffectWork)
        ensures
            r == (EffectWork {
                work_0: 0,
                work_1: 0,
                work_2: 0,
                work_3: 0,
                work_4: 0,
                work_5: 0,
                work_6: 0,
                vector_0: (0, 0, 0),
                vector_1: (0, 0, 0),
                vector_2: (0, 0, 0),
                spline_0: 0,
                spline_1: 0,
                spline_2: 0,
                spline_3: 0,
                unknown_x100: 0,
            }),
    {
        EffectWork {
                work_0: 0,
                work_1: 0,
                work_2: 0,
                work_3: 0,
                work_4: 0,
                work_5: 0,
                work_6: 0,
                vector_0: (0, 0, 0),
                vector_1: (0, 0, 0),
                vector_2: (0, 0, 0),
                spline_0: 0,
                spline_1: 0,
                spline_2: 0,
                spline_3: 0,
                unknown_x100: 0,
        }
    }
}

impl Default for EffectControl {
    /// The all-zero group.
    fn default() -> (r: EffectControl)
        ensures
            r == (EffectControl {
                path_own: 0,
                path_number: 0,
                path_start: 0,
                path_random: 0,
                eff_type: 0,
                control_id: 0,
                control_flag: 0,
                control_interval: 0,
                control_number: 0,
                control_rp: 0,
                unknown_x10f: 0,
                control_life: 0,
                unknown_x112: 0,
                unknown_x114: 0,
                unknown_x116: 0,
                control_path_scale: (0, 0, 0),
                control_path_delta_size: 0,
                control_path_delta_speed: 0,
                control_path_delta_alpha: 0,
                control_path_delta_interval: 0,
                control_path_random_interval: 0,
                control_path_rotation: (0, 0),
                control_path_flag: 0,
            }),
    {
        EffectControl {
                path_own: 0,
                path_number: 0,
                path_start: 0,
                path_random: 0,
                eff_type: 0,
                control_id: 0,
                control_flag: 0,
                control_interval: 0,
                control_number: 0,
                control_rp: 0,
                unknown_x10f: 0,
                control_life: 0,
                unknown_x112: 0,
                unknown_x114: 0,
                unknown_x116: 0,
                control_path_scale: (0, 0, 0),
                control_path_delta_size: 0,
                control_path_delta_speed: 0,
                control_path_delta_alpha: 0,
                control_path_delta_interval: 0,
                control_path_random_interval: 0,
                control_path_rotation: (0, 0),
                control_path_flag: 0,
        }
    }
}

impl Default for Effect {
    /// The all-zero effect record.
    fn default() -> (r: Effect)
        ensures
            r == (Effect {
                ident: EffectIdent {
                    state_id: 0,
                    esp_id: 0,
                    texture_id: 0,
                    unknown_x03: 0,
                    time: 0,
                    parent: 0,
                    part: 0,
                    flags: 0,
                },
                motion: EffectMotion {
                    position: (0, 0, 0),
                    random: (0, 0, 0),
                    speed: (0, 0, 0),
                    delta_speed: 0,
                    random_speed: (0, 0, 0),
                    acceleration: (0, 0, 0),
                    random_acceleration: (0, 0, 0),
                },
                rotation: EffectRotation {
                    rotate: (0, 0, 0),
                    random_rotate: (0, 0, 0),
                    rotate_acceleration: (0, 0, 0),
                    random_rotate_acceleration: (0, 0, 0),
                    width: 0,
                    height: 0,
                    random_size: 0,
                    grow: 0,
                    delta_grow: 0,
                },
                shading: EffectShading {
                    rgba: (0, 0, 0, 0),
                    delta_color: (0, 0, 0, 0),
                    delta_color_attack: 0,
                    delta_color_start_frame: 0,
                    unknown_xb4: 0,
                    delta_size_start_frame: 0,
                    life_time: 0,
                    animation_speed: 0,
                    unknown_xbe: 0,
                    release_time: 0,
                    blend: 0,
                    simulation_type: 0,
                    simulation_power: 0,
                    mask_texture_id: 0,
                    value_in: 0,
                    value_out: 0,
                },
                work: EffectWork {
                    work_0: 0,
                    work_1: 0,
                    work_2: 0,
                    work_3: 0,
                    work_4: 0,
                    work_5: 0,
                    work_6: 0,
                    vector_0: (0, 0, 0),
                    vector_1: (0, 0, 0),
                    vector_2: (0, 0, 0),
                    spline_0: 0,
                    spline_1: 0,
                    spline_2: 0,
                    spline_3: 0,
                    unknown_x100: 0,
                },
                control: EffectControl {
                    path_own: 0,
                    path_number: 0,
                    path_start: 0,
                    path_random: 0,
                    eff_type: 0,
                    control_id: 0,
                    control_flag: 0,
                    control_interval: 0,
                    control_number: 0,
                    control_rp: 0,
                    unknown_x10f: 0,
                    control_life: 0,
                    unknown_x112: 0,
                    unknown_x114: 0,
                    unknown_x116: 0,
                    control_path_scale: (0, 0, 0),
                    control_path_delta_size: 0,
                    control_path_delta_speed: 0,
                    control_path_delta_alpha: 0,
                    control_path_delta_interval: 0,
                    control_path_random_interval: 0,
                    control_path_rotation: (0, 0),
                    control_path_flag: 0,
                },
            }),
    {
        Effect {
            ident: EffectIdent::default(),
            motion: EffectMotion::default(),
            rotation: EffectRotation::default(),
            shading: EffectShading::default(),
            work: EffectWork::default(),
            control: EffectControl::default(),
        }
    }
}

} // verus!
