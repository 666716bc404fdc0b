//! The scalar endian codec: exact wire bytes, round trips in both byte
//! orders, and re-tagging checked against the `scalar_types` crate.

use eff_blob::scalar::{get_u16, get_u32, get_u8, put_u16, put_u32, put_u8, retag_u16, retag_u32};
use eff_blob::ByteOrder;
use scalar_types::Endian;

#[test]
fn u16_little_endian_bytes() {
    let mut out: Vec<u8> = Vec::new();
    put_u16(&mut out, 0x1234, ByteOrder::Little);
    assert_eq!(out, vec![0x34, 0x12]);
}

#[test]
fn u16_big_endian_bytes() {
    let mut out: Vec<u8> = Vec::new();
    put_u16(&mut out, 0x1234, ByteOrder::Big);
    assert_eq!(out, vec![0x12, 0x34]);
}

#[test]
fn u32_little_endian_bytes() {
    let mut out: Vec<u8> = Vec::new();
    put_u32(&mut out, 0x11223344, ByteOrder::Little);
    assert_eq!(out, vec![0x44, 0x33, 0x22, 0x11]);
}

#[test]
fn u32_big_endian_bytes() {
    let mut out: Vec<u8> = Vec::new();
    put_u32(&mut out, 0x11223344, ByteOrder::Big);
    assert_eq!(out, vec![0x11, 0x22, 0x33, 0x44]);
}

#[test]
fn scalar_round_trip_all_widths_both_orders() {
    for &order in &[ByteOrder::Little, ByteOrder::Big] {
        for &v8 in &[0u8, 1, 0x7f, 0xff] {
            let mut out: Vec<u8> = Vec::new();
            put_u8(&mut out, v8);
            let mut pos: usize = 0;
            assert_eq!(get_u8(&out, &mut pos), Some(v8));
            assert_eq!(pos, 1);
        }
        for &v16 in &[0u16, 1, 0x1234, 0xffff] {
            let mut out: Vec<u8> = Vec::new();
            put_u16(&mut out, v16, order);
            let mut pos: usize = 0;
            assert_eq!(get_u16(&out, &mut pos, order), Some(v16));
            assert_eq!(pos, 2);
        }
        for &v32 in &[0u32, 1, 0xdeadbeef, 0xffffffff] {
            let mut out: Vec<u8> = Vec::new();
            put_u32(&mut out, v32, order);
            let mut pos: usize = 0;
            assert_eq!(get_u32(&out, &mut pos, order), Some(v32));
            assert_eq!(pos, 4);
        }
    }
}

#[test]
fn float_bits_round_trip() {
    // IEEE-754 floats travel as u32 bit patterns; the permutation must be
    // bit-exact for them too.
    for &f in &[0.0f32, 1.0, -2.5, 3.14159, f32::MIN_POSITIVE] {
        for &order in &[ByteOrder::Little, ByteOrder::Big] {
            let mut out: Vec<u8> = Vec::new();
            put_u32(&mut out, f.to_bits(), order);
            let mut pos: usize = 0;
            let back = get_u32(&out, &mut pos, order).unwrap();
            assert_eq!(f32::from_bits(back), f);
        }
    }
}

#[test]
fn short_reads_fail_without_advancing() {
    let data: Vec<u8> = vec![0xaa];
    let mut pos: usize = 0;
    assert_eq!(get_u16(&data, &mut pos, ByteOrder::Little), None);
    assert_eq!(pos, 0);
    assert_eq!(get_u32(&data, &mut pos, ByteOrder::Big), None);
    assert_eq!(pos, 0);
}

#[test]
fn retag_swaps_bytes_between_orders() {
    assert_eq!(retag_u16(0x1234, ByteOrder::Little, ByteOrder::Big), 0x3412);
    assert_eq!(retag_u32(0x11223344, ByteOrder::Little, ByteOrder::Big), 0x44332211);
    assert_eq!(retag_u32(0x11223344, ByteOrder::Big, ByteOrder::Little), 0x44332211);
    assert_eq!(retag_u32(0x11223344, ByteOrder::Little, ByteOrder::Little), 0x11223344);
}

#[test]
fn retag_round_trip_is_identity() {
    let orders = [ByteOrder::Little, ByteOrder::Big];
    for &a in &orders {
        for &b in &orders {
            for &v in &[0u32, 1, 0x12345678, 0xffffffff] {
                let there = retag_u32(v, a, b);
                assert_eq!(retag_u32(there, b, a), v);
            }
            for &v in &[0u16, 1, 0x1234, 0xffff] {
                let there = retag_u16(v, a, b);
                assert_eq!(retag_u16(there, b, a), v);
            }
        }
    }
}

#[test]
fn retag_agrees_with_scalar_types_cast() {
    // The re-tag operation mirrors scalar_types::Endian::cast: a value
    // tagged little cast to big is the byte-reversed value, and vice versa.
    for &v in &[0u32, 1, 0x12345678, 0xdeadbeef] {
        let ours = retag_u32(v, ByteOrder::Little, ByteOrder::Big);
        let theirs = Endian::Little(v).cast(Endian::Big(())).unwrap();
        assert_eq!(ours, theirs);
        let ours_back = retag_u32(v, ByteOrder::Big, ByteOrder::Little);
        let theirs_back = Endian::Big(v).cast(Endian::Little(())).unwrap();
        assert_eq!(ours_back, theirs_back);
    }
    for &v in &[0u16, 1, 0x1234, 0xbeef] {
        let ours = retag_u16(v, ByteOrder::Little, ByteOrder::Big);
        let theirs = Endian::Little(v).cast(Endian::Big(())).unwrap();
        assert_eq!(ours, theirs);
    }
}
