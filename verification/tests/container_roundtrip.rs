//! The container orchestrator: compiling and loading whole containers,
//! absent sections, bad offsets, and determinism.

use eff_blob::container::Eff;
use eff_blob::curve::{Curve, CurvePoint};
use eff_blob::effect::Effect;
use eff_blob::group::{EffectGroup, GroupHeader};
use eff_blob::records::{EarLink, TableEntry, TextureMetadata};
use eff_blob::{ByteOrder, EffError};

const ORDERS: [ByteOrder; 2] = [ByteOrder::Little, ByteOrder::Big];

fn empty_container() -> Eff {
    Eff {
        texture_ids: Vec::new(),
        core_ids: Vec::new(),
        ear_links: Vec::new(),
        unknown_table: Vec::new(),
        model_ids: Vec::new(),
        tpls_metadata: Vec::new(),
        effects_0: Vec::new(),
        effects_1: Vec::new(),
        paths: Vec::new(),
    }
}

fn put_u32_at(bytes: &mut [u8], at: usize, v: u32, o: ByteOrder) {
    let raw = match o {
        ByteOrder::Little => v.to_le_bytes(),
        ByteOrder::Big => v.to_be_bytes(),
    };
    bytes[at..at + 4].copy_from_slice(&raw);
}

#[test]
fn empty_container_compiles_and_reloads_empty() {
    for &o in &ORDERS {
        let mut c = empty_container();
        let bytes = c.compile(o).unwrap();
        let back = Eff::new(&bytes, o).unwrap();
        assert!(back.texture_ids.is_empty());
        assert!(back.core_ids.is_empty());
        assert!(back.ear_links.is_empty());
        assert!(back.unknown_table.is_empty());
        assert!(back.model_ids.is_empty());
        assert!(back.tpls_metadata.is_empty());
        assert!(back.effects_0.is_empty());
        assert!(back.effects_1.is_empty());
        assert!(back.paths.is_empty());
    }
}

#[test]
fn empty_container_has_the_fixed_layout() {
    let mut c = empty_container();
    let bytes = c.compile(ByteOrder::Little).unwrap();
    // Eleven slots, each empty section one aligned block: a 416-byte file.
    assert_eq!(bytes.len(), 416);
    assert_eq!(u32::from_le_bytes([bytes[0], bytes[1], bytes[2], bytes[3]]), 11);
    let expected_tops: [u32; 11] = [64, 96, 128, 160, 192, 224, 256, 288, 320, 352, 384];
    for (k, &top) in expected_tops.iter().enumerate() {
        let at = 4 + 4 * k;
        assert_eq!(u32::from_le_bytes([bytes[at], bytes[at + 1], bytes[at + 2], bytes[at + 3]]), top);
    }
    // Every remaining byte is zero: empty counts, padding and gaps alike.
    assert!(bytes[48..].iter().all(|&b| b == 0));
}

fn one_of_everything() -> Eff {
    let mut effect = Effect::default();
    effect.ident.state_id = 5;
    effect.motion.position = (1.0f32.to_bits(), 2.0f32.to_bits(), 3.0f32.to_bits());
    let group = EffectGroup { header: GroupHeader::default(), effects: vec![effect] };
    Eff {
        texture_ids: vec![TableEntry { id: 0x1234, unknown: 0 }],
        core_ids: Vec::new(),
        ear_links: vec![EarLink { id: 1, ear_link_id: 2, unknown: 0 }],
        unknown_table: Vec::new(),
        model_ids: Vec::new(),
        tpls_metadata: Vec::new(),
        effects_0: vec![group],
        effects_1: Vec::new(),
        paths: Vec::new(),
    }
}

#[test]
fn small_container_round_trips_bit_exact() {
    for &o in &ORDERS {
        let mut c = one_of_everything();
        let bytes = c.compile(o).unwrap();
        let back = Eff::new(&bytes, o).unwrap();
        assert_eq!(back.texture_ids.len(), 1);
        assert_eq!(back.texture_ids[0].id, 0x1234);
        assert_eq!(back.ear_links.len(), 1);
        assert_eq!(back.ear_links[0].id, 1);
        assert_eq!(back.ear_links[0].ear_link_id, 2);
        assert_eq!(back.effects_0.len(), 1);
        assert_eq!(back.effects_0[0].effects.len(), 1);
        let e = &back.effects_0[0].effects[0];
        assert_eq!(e.ident.state_id, 5);
        assert_eq!(f32::from_bits(e.motion.position.0), 1.0);
        assert_eq!(f32::from_bits(e.motion.position.1), 2.0);
        assert_eq!(f32::from_bits(e.motion.position.2), 3.0);
        assert_eq!(e.motion.position.0, 1.0f32.to_bits());
        assert_eq!(e.motion.position.1, 2.0f32.to_bits());
        assert_eq!(e.motion.position.2, 3.0f32.to_bits());
        assert!(back.effects_1.is_empty());
        assert!(back.paths.is_empty());
    }
}

#[test]
fn full_container_round_trips_in_both_orders() {
    let mut effect = Effect::default();
    effect.shading.rgba = (1, 2, 3, 4);
    effect.control.control_life = 0x1234;
    let curve = Curve {
        points: vec![CurvePoint {
            point: (9.0f32.to_bits(), 8.0f32.to_bits(), 7.0f32.to_bits()),
            handle_0: (1, 2, 3),
            handle_1: (4, 5, 6),
            unknown: 0x42,
        }],
    };
    for &o in &ORDERS {
        let mut c = Eff {
            texture_ids: vec![TableEntry { id: 1, unknown: 0xaaaa }],
            core_ids: vec![TableEntry { id: 2, unknown: 0 }, TableEntry { id: 3, unknown: 0 }],
            ear_links: vec![EarLink { id: 4, ear_link_id: 5, unknown: 6 }],
            unknown_table: vec![TableEntry { id: 7, unknown: 0 }],
            model_ids: vec![TableEntry { id: 8, unknown: 0 }],
            tpls_metadata: vec![TextureMetadata {
                texture_height: 16,
                texture_width: 32,
                effect_height: 8,
                effect_width: 8,
                texture_count: 1,
                unknown_1: 0,
                unknown_2: 1,
            }],
            effects_0: vec![EffectGroup {
                header: GroupHeader::default(),
                effects: vec![effect.clone()],
            }],
            effects_1: vec![EffectGroup { header: GroupHeader::default(), effects: Vec::new() }],
            paths: vec![curve.clone(), Curve { points: Vec::new() }],
        };
        let bytes = c.compile(o).unwrap();
        let back = Eff::new(&bytes, o).unwrap();
        assert_eq!(back, c);
        // And a second binary trip stays identical: the codec is lossless.
        let mut back2 = back.clone();
        let bytes2 = back2.compile(o).unwrap();
        assert_eq!(bytes2, bytes);
    }
}

#[test]
fn compiling_twice_is_deterministic() {
    for &o in &ORDERS {
        let mut a = one_of_everything();
        let mut b = one_of_everything();
        assert_eq!(a.compile(o).unwrap(), b.compile(o).unwrap());
    }
}

#[test]
fn zero_offset_slots_decode_to_empty_collections() {
    // A hand-written stream: slot count eleven, every offset zero, and
    // nothing else. Every section is absent; nothing errs.
    for &o in &ORDERS {
        let mut bytes = vec![0u8; 48];
        put_u32_at(&mut bytes, 0, 11, o);
        let back = Eff::new(&bytes, o).unwrap();
        assert!(back.texture_ids.is_empty());
        assert!(back.ear_links.is_empty());
        assert!(back.tpls_metadata.is_empty());
        assert!(back.effects_0.is_empty());
        assert!(back.effects_1.is_empty());
        assert!(back.paths.is_empty());
    }
}

#[test]
fn offset_past_end_of_stream_fails_decode() {
    for &o in &ORDERS {
        for slot in [0usize, 1, 2, 3, 4, 6, 7, 8, 9] {
            let mut c = empty_container();
            let mut bytes = c.compile(o).unwrap();
            let len = bytes.len() as u32;
            put_u32_at(&mut bytes, 4 + 4 * slot, len + 1000, o);
            let r = Eff::new(&bytes, o);
            assert!(
                matches!(r, Err(EffError::Truncated) | Err(EffError::InvalidOffset)),
                "slot {} accepted a dangling offset",
                slot
            );
        }
    }
}

#[test]
fn truncated_header_fails_with_truncated() {
    let bytes: Vec<u8> = vec![0, 0];
    assert_eq!(Eff::new(&bytes, ByteOrder::Little), Err(EffError::Truncated));
}

#[test]
fn short_slot_table_fails_with_truncated() {
    // The table announces only four slots; the container needs ten.
    let mut bytes = vec![0u8; 20];
    put_u32_at(&mut bytes, 0, 4, ByteOrder::Little);
    assert_eq!(Eff::new(&bytes, ByteOrder::Little), Err(EffError::Truncated));
}

#[test]
fn offset_just_inside_but_truncated_section_fails() {
    // Slot zero points at the last two bytes: the element count itself
    // cannot be read there.
    for &o in &ORDERS {
        let mut c = empty_container();
        let mut bytes = c.compile(o).unwrap();
        let len = bytes.len() as u32;
        put_u32_at(&mut bytes, 4, len - 2, o);
        let r = Eff::new(&bytes, o);
        assert_eq!(r, Err(EffError::InvalidOffset));
    }
}

#[test]
fn section_announcing_too_many_entries_fails_truncated() {
    // Slot zero's table claims a million entries that are not there.
    for &o in &ORDERS {
        let mut c = empty_container();
        let mut bytes = c.compile(o).unwrap();
        // Slot zero points at offset 64; overwrite that section's count.
        put_u32_at(&mut bytes, 64, 1_000_000, o);
        assert_eq!(Eff::new(&bytes, o), Err(EffError::Truncated));
    }
}

#[test]
fn little_and_big_outputs_differ_only_by_byte_order() {
    let mut c = one_of_everything();
    let little = c.compile(ByteOrder::Little).unwrap();
    let big = c.compile(ByteOrder::Big).unwrap();
    assert_eq!(little.len(), big.len());
    assert_ne!(little, big);
    // The slot count word is the same number under both readings.
    assert_eq!(
        u32::from_le_bytes([little[0], little[1], little[2], little[3]]),
        u32::from_be_bytes([big[0], big[1], big[2], big[3]])
    );
    // A big-endian stream does not load as little-endian: the slot count
    // reads as a wild value.
    assert!(Eff::new(&big, ByteOrder::Little).is_err());
}

#[test]
fn reserved_fields_survive_a_binary_round_trip() {
    for &o in &ORDERS {
        let mut c = empty_container();
        c.texture_ids.push(TableEntry { id: 1, unknown: 0xdeadbeef });
        c.ear_links.push(EarLink { id: 1, ear_link_id: 2, unknown: 0xfeedface });
        let bytes = c.compile(o).unwrap();
        let back = Eff::new(&bytes, o).unwrap();
        assert_eq!(back.texture_ids[0].unknown, 0xdeadbeef);
        assert_eq!(back.ear_links[0].unknown, 0xfeedface);
    }
}
