//! The 32-byte alignment rule: idempotent, always a multiple of 32, and
//! never moves an already-aligned offset.

use eff_blob::container::Eff;

#[test]
fn align_rounds_up_to_32() {
    assert_eq!(Eff::byte_align(0), Some(0));
    assert_eq!(Eff::byte_align(1), Some(32));
    assert_eq!(Eff::byte_align(31), Some(32));
    assert_eq!(Eff::byte_align(32), Some(32));
    assert_eq!(Eff::byte_align(33), Some(64));
    assert_eq!(Eff::byte_align(0x40), Some(0x40));
    assert_eq!(Eff::byte_align(0x41), Some(0x60));
}

#[test]
fn align_is_idempotent_and_a_multiple_of_32() {
    for x in [0u64, 1, 5, 31, 32, 33, 63, 64, 1000, 123456789] {
        let a = Eff::byte_align(x).unwrap();
        assert_eq!(a % 32, 0);
        assert_eq!(Eff::byte_align(a), Some(a));
        assert!(a >= x && a < x + 32);
    }
}

#[test]
fn align_overflows_only_at_the_top_of_u64() {
    assert_eq!(Eff::byte_align(u64::MAX), None);
    assert_eq!(Eff::byte_align(u64::MAX - 31), Some(u64::MAX - 31));
    assert_eq!(Eff::byte_align(u64::MAX - 40), Some(u64::MAX - 31));
}
