use fbdraw::gfx::codec::{blend, color_from_16_bits, color_to_16_bits};

#[test]
fn pack_places_each_channel() {
    assert_eq!(color_to_16_bits(0xF8, 0, 0), (0x00, 0xF8));
    assert_eq!(color_to_16_bits(0, 0xFC, 0), (0xE0, 0x07));
    assert_eq!(color_to_16_bits(0, 0, 0xF8), (0x1F, 0x00));
    assert_eq!(color_to_16_bits(255, 255, 255), (0xFF, 0xFF));
    assert_eq!(color_to_16_bits(0, 0, 0), (0x00, 0x00));
    assert_eq!(color_to_16_bits(7, 3, 7), (0x00, 0x00));
    assert_eq!(color_to_16_bits(0x12, 0x34, 0x56), (0xAA, 0x11));
}

#[test]
fn unpack_reads_each_channel() {
    assert_eq!(color_from_16_bits(0x00, 0xF8), (0xF8, 0, 0));
    assert_eq!(color_from_16_bits(0xE0, 0x07), (0, 0xFC, 0));
    assert_eq!(color_from_16_bits(0x1F, 0x00), (0, 0, 0xF8));
    assert_eq!(color_from_16_bits(0xAA, 0x11), (0x10, 0x34, 0x50));
}

#[test]
fn round_trip_keeps_top_bits_only() {
    for r in 0..=255u8 {
        for g in 0..=255u8 {
            for b in (0..=255u8).step_by(3) {
                let (h, l) = color_to_16_bits(r, g, b);
                assert_eq!(color_from_16_bits(h, l), (r & 0xF8, g & 0xFC, b & 0xF8));
            }
        }
    }
}

#[test]
fn blend_divides_by_256() {
    assert_eq!(blend(200, 100, 50, 128, 0, 255, 100), (100, 176, 74));
    assert_eq!(blend(255, 255, 255, 1, 0, 0, 0), (0, 0, 0));
    assert_eq!(blend(255, 255, 255, 2, 0, 0, 0), (1, 1, 1));
}

#[test]
fn blend_at_full_opacity_is_source_short_by_one() {
    assert_eq!(blend(10, 0, 255, 255, 1, 2, 3), (9, 0, 254));
    assert_eq!(blend(0, 0, 0, 255, 200, 200, 200), (0, 0, 0));
}

#[test]
fn blend_at_full_transparency_is_destination_short_by_one() {
    assert_eq!(blend(1, 2, 3, 0, 8, 0, 255), (7, 0, 254));
    assert_eq!(blend(200, 200, 200, 0, 0, 0, 0), (0, 0, 0));
}
