use arbitrary::Unstructured;
use virtio_fuzz::input::{draw_bool, draw_u64};
use virtio_fuzz::ring::{negotiate, without_ring_packed};

#[test]
fn numbers_are_drawn_little_endian() {
    let bytes = [0x11, 0x22, 0x33, 0x44, 0x55, 0x66, 0x77, 0x88, 0x99, 0xaa];
    let mut input = Unstructured::new(&bytes);
    assert_eq!(draw_u64(&mut input), Ok(0x8877_6655_4433_2211));
    assert_eq!(draw_u64(&mut input), Ok(0xaa99));
    assert_eq!(draw_u64(&mut input), Ok(0));
    assert!(input.is_empty());
}

#[test]
fn flags_are_drawn_from_the_lowest_bit() {
    let bytes = [0, 1, 2, 255];
    let mut input = Unstructured::new(&bytes);
    assert_eq!(draw_bool(&mut input), Ok(false));
    assert_eq!(draw_bool(&mut input), Ok(true));
    assert_eq!(draw_bool(&mut input), Ok(false));
    assert_eq!(draw_bool(&mut input), Ok(true));
    assert_eq!(draw_bool(&mut input), Ok(false));
}

#[test]
fn packed_ring_is_never_negotiated() {
    let allowed = without_ring_packed(u64::MAX);
    assert_eq!(allowed, 0xffff_fffb_ffff_ffff);
    assert_eq!(negotiate(u64::MAX, allowed), allowed);
    assert_eq!(negotiate(1 << 34, allowed), 0);
}

#[test]
fn only_offered_bits_are_negotiated() {
    assert_eq!(negotiate(0b1110, without_ring_packed(0b0111)), 0b0110);
}
