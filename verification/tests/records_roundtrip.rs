//! Record codecs: every fixed-layout record must round-trip byte-for-byte,
//! reserved fields included, in both byte orders.

use eff_blob::curve::{Curve, CurvePoint};
use eff_blob::EffError;
use eff_blob::effect::Effect;
use eff_blob::group::{EffectGroup, GroupHeader};
use eff_blob::records::{EarLink, TableEntry, TextureMetadata};
use eff_blob::ByteOrder;

const ORDERS: [ByteOrder; 2] = [ByteOrder::Little, ByteOrder::Big];

#[test]
fn table_entry_exact_bytes() {
    let e = TableEntry { id: 0x1234, unknown: 0xa1b2c3d4 };
    let mut out: Vec<u8> = Vec::new();
    e.write(&mut out, ByteOrder::Little).unwrap();
    assert_eq!(out, vec![0x34, 0x12, 0x00, 0x00, 0xd4, 0xc3, 0xb2, 0xa1]);
    let mut big: Vec<u8> = Vec::new();
    e.write(&mut big, ByteOrder::Big).unwrap();
    assert_eq!(big, vec![0x00, 0x00, 0x12, 0x34, 0xa1, 0xb2, 0xc3, 0xd4]);
}

#[test]
fn table_entry_round_trip() {
    for &o in &ORDERS {
        let e = TableEntry { id: 7, unknown: 99 };
        let mut out: Vec<u8> = Vec::new();
        e.write(&mut out, o).unwrap();
        let mut pos: usize = 0;
        let back = TableEntry::new(&out, &mut pos, o).unwrap();
        assert_eq!(back, e);
        assert_eq!(pos, 8);
    }
}

#[test]
fn table_entry_truncated_is_none() {
    let data: Vec<u8> = vec![0; 7];
    let mut pos: usize = 0;
    assert!(TableEntry::new(&data, &mut pos, ByteOrder::Little).is_none());
    assert_eq!(pos, 0);
}

#[test]
fn ear_link_round_trip_preserves_reserved_field() {
    for &o in &ORDERS {
        let e = EarLink { id: 1, ear_link_id: 2, unknown: 0xfeedface };
        let mut out: Vec<u8> = Vec::new();
        e.write(&mut out, o).unwrap();
        assert_eq!(out.len(), 8);
        let mut pos: usize = 0;
        let back = EarLink::new(&out, &mut pos, o).unwrap();
        assert_eq!(back, e);
    }
}

#[test]
fn texture_metadata_round_trip() {
    for &o in &ORDERS {
        let m = TextureMetadata {
            texture_height: 256,
            texture_width: 512,
            effect_height: 32,
            effect_width: 64,
            texture_count: 4,
            unknown_1: 0xaa,
            unknown_2: 0x55,
        };
        let mut out: Vec<u8> = Vec::new();
        m.write(&mut out, o).unwrap();
        assert_eq!(out.len(), 12);
        let mut pos: usize = 0;
        let back = TextureMetadata::new(&out, &mut pos, o).unwrap();
        assert_eq!(back, m);
    }
}

#[test]
fn curve_round_trip() {
    for &o in &ORDERS {
        let c = Curve {
            points: vec![
                CurvePoint {
                    point: (1.0f32.to_bits(), 2.0f32.to_bits(), 3.0f32.to_bits()),
                    handle_0: (0, 1, 2),
                    handle_1: (3, 4, 5),
                    unknown: 0xdeadbeef,
                },
                CurvePoint {
                    point: ((-1.5f32).to_bits(), 0, 0),
                    handle_0: (9, 8, 7),
                    handle_1: (6, 5, 4),
                    unknown: 0,
                },
            ],
        };
        let mut out: Vec<u8> = Vec::new();
        c.write(&mut out, o).unwrap();
        assert_eq!(out.len(), 4 + 2 * 40);
        let mut pos: usize = 0;
        let back = Curve::new(&out, &mut pos, o).unwrap();
        assert_eq!(back.points, c.points);
        assert_eq!(pos, out.len());
    }
}

#[test]
fn empty_curve_round_trip() {
    let c = Curve { points: Vec::new() };
    let mut out: Vec<u8> = Vec::new();
    c.write(&mut out, ByteOrder::Big).unwrap();
    assert_eq!(out, vec![0, 0, 0, 0]);
    let mut pos: usize = 0;
    let back = Curve::new(&out, &mut pos, ByteOrder::Big).unwrap();
    assert!(back.points.is_empty());
}

#[test]
fn curve_announcing_too_many_points_is_none() {
    // Count says one point, but only ten bytes follow the count.
    let mut data: Vec<u8> = vec![1, 0, 0, 0];
    data.extend_from_slice(&[0u8; 10]);
    let mut pos: usize = 0;
    assert!(Curve::new(&data, &mut pos, ByteOrder::Little).is_none());
    assert_eq!(pos, 0);
}

fn sample_effect() -> Effect {
    let mut e = Effect::default();
    e.ident.state_id = 5;
    e.ident.esp_id = 7;
    e.ident.time = 0x0102;
    e.ident.flags = 0xcafebabe;
    e.motion.position = (1.0f32.to_bits(), 2.0f32.to_bits(), 3.0f32.to_bits());
    e.motion.delta_speed = (-0.5f32).to_bits();
    e.rotation.width = 10.0f32.to_bits();
    e.shading.rgba = (10, 20, 30, 40);
    e.shading.blend = 0xff;
    e.work.work_4 = 0x11223344;
    e.control.control_flag = 0xbeef;
    e.control.control_path_rotation = (3, 9);
    e.control.control_path_flag = 0x7e;
    e
}

#[test]
fn effect_is_300_bytes_and_round_trips() {
    for &o in &ORDERS {
        let e = sample_effect();
        let mut out: Vec<u8> = Vec::new();
        e.write(&mut out, o).unwrap();
        assert_eq!(out.len(), 300);
        let mut pos: usize = 0;
        let back = Effect::new(&out, &mut pos, o).unwrap();
        assert_eq!(back, e);
        assert_eq!(pos, 300);
    }
}

#[test]
fn effect_field_positions_match_the_layout() {
    let e = sample_effect();
    let mut out: Vec<u8> = Vec::new();
    e.write(&mut out, ByteOrder::Little).unwrap();
    // state_id is the first byte; time is the little-endian word at 4;
    // position.0 is the float at 12; the final byte is control_path_flag.
    assert_eq!(out[0], 5);
    assert_eq!(u16::from_le_bytes([out[4], out[5]]), 0x0102);
    assert_eq!(f32::from_bits(u32::from_le_bytes([out[12], out[13], out[14], out[15]])), 1.0);
    assert_eq!(out[299], 0x7e);
}

#[test]
fn effect_truncated_is_none() {
    let data: Vec<u8> = vec![0; 299];
    let mut pos: usize = 0;
    assert!(Effect::new(&data, &mut pos, ByteOrder::Little).is_none());
    assert_eq!(pos, 0);
}

#[test]
fn effect_group_round_trip() {
    for &o in &ORDERS {
        let g = EffectGroup {
            header: GroupHeader {
                unknown_x02: 1,
                unknown_x04: 2,
                unknown_x06: 3,
                unknown_x08: 4,
                unknown_x0a: 5,
                unknown_x0b: 6,
                unknown_x0c: 1.5f32.to_bits(),
                unknown_x10: 2.5f32.to_bits(),
                unknown_x14: 0,
                unknown_x18: 0,
                unknown_x1c: 0,
                unknown_x20: 0,
                unknown_x24: 9,
            },
            effects: vec![sample_effect(), Effect::default()],
        };
        let mut out: Vec<u8> = Vec::new();
        g.write(&mut out, o).unwrap();
        assert_eq!(out.len(), 48 + 2 * 300);
        // The eleven-byte reserved gap after the header is zero-filled.
        assert!(out[37..48].iter().all(|&b| b == 0));
        let mut pos: usize = 0;
        let back = EffectGroup::new(&out, &mut pos, o).unwrap();
        assert_eq!(back.header, g.header);
        assert_eq!(back.effects, g.effects);
    }
}

#[test]
fn effect_group_gap_belongs_to_the_record() {
    let g = EffectGroup { header: GroupHeader::default(), effects: Vec::new() };
    let mut out: Vec<u8> = Vec::new();
    g.write(&mut out, ByteOrder::Little).unwrap();
    assert_eq!(out.len(), 48);
    // Even an empty group occupies its header plus the eleven-byte
    // reserved gap: the cursor lands after the gap, and a stream cut off
    // inside the gap is refused.
    let mut pos: usize = 0;
    let back = EffectGroup::new(&out, &mut pos, ByteOrder::Little).unwrap();
    assert!(back.effects.is_empty());
    assert_eq!(pos, 48);
    let truncated: Vec<u8> = out[..37].to_vec();
    let mut pos2: usize = 0;
    assert!(EffectGroup::new(&truncated, &mut pos2, ByteOrder::Little).is_none());
    assert_eq!(pos2, 0);
}

fn sample_effect_group_count_overflow() -> EffectGroup {
    let mut effects: Vec<Effect> = Vec::with_capacity(0x10000);
    for _ in 0..0x10000 {
        effects.push(Effect::default());
    }
    EffectGroup { header: GroupHeader::default(), effects }
}

#[test]
fn effect_group_count_overflow_is_cast_failure() {
    let g = sample_effect_group_count_overflow();
    let mut out: Vec<u8> = Vec::new();
    let r = g.write(&mut out, ByteOrder::Little);
    assert_eq!(r, Err(EffError::CastFailure));
    assert!(out.is_empty());
}
