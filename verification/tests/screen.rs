use fbdraw::gfx::color::{Colorful, NamedColor};
use fbdraw::gfx::screen::{Screen, ScreenError};
use fbdraw::rainbow::RainbowCycleBuilder;
use memmap2::MmapMut;

fn surface(width: usize, height: usize) -> Screen {
    Screen::new(MmapMut::map_anon(width * height * 2).unwrap(), width, height).unwrap()
}

fn lit(screen: &Screen, untouched: (u8, u8, u8)) -> Vec<(usize, usize)> {
    let mut found = Vec::new();
    for y in 0..screen.height() {
        for x in 0..screen.width() {
            if screen.get_px(x, y) != Some(untouched) {
                found.push((x, y));
            }
        }
    }
    found
}

fn same_pixels(a: &Screen, b: &Screen) -> bool {
    for y in 0..a.height() {
        for x in 0..a.width() {
            if a.get_px(x, y) != b.get_px(x, y) {
                return false;
            }
        }
    }
    a.width() == b.width() && a.height() == b.height()
}

#[test]
fn new_checks_the_size_of_the_mapping() {
    assert!(Screen::new(MmapMut::map_anon(24).unwrap(), 4, 3).is_ok());
    assert_eq!(Screen::new(MmapMut::map_anon(24).unwrap(), 4, 4).err(), Some(ScreenError::SizeMismatch));
    assert_eq!(Screen::new(MmapMut::map_anon(36).unwrap(), 4, 3).err(), Some(ScreenError::SizeMismatch));
    assert_eq!(Screen::new(MmapMut::map_anon(25).unwrap(), 4, 3).err(), Some(ScreenError::SizeMismatch));
    let screen = surface(4, 3);
    assert_eq!(screen.width(), 4);
    assert_eq!(screen.height(), 3);
}

#[test]
fn set_px_writes_the_packed_color() {
    let mut screen = surface(4, 3);
    assert_eq!(screen.set_px(2, 1, &mut [0x12u8, 0x34, 0x56]), Ok(()));
    assert_eq!(screen.get_px(2, 1), Some((0x10, 0x34, 0x50)));
    assert_eq!(lit(&screen, (0, 0, 0)), vec![(2, 1)]);
    // Alpha is ignored.
    assert_eq!(screen.set_px(0, 0, &mut [255u8, 255, 255, 0]), Ok(()));
    assert_eq!(screen.get_px(0, 0), Some((0xF8, 0xFC, 0xF8)));
}

#[test]
fn pixels_outside_are_refused() {
    let mut screen = surface(4, 3);
    let mut red = NamedColor::Red;
    assert_eq!(screen.set_px(4, 0, &mut red), Err(ScreenError::OutOfBounds));
    assert_eq!(screen.set_px(0, 3, &mut red), Err(ScreenError::OutOfBounds));
    assert_eq!(screen.blend_px(4, 2, &mut red), Err(ScreenError::OutOfBounds));
    assert_eq!(screen.blend_px(usize::MAX, usize::MAX, &mut red), Err(ScreenError::OutOfBounds));
    assert_eq!(screen.get_px(4, 0), None);
    assert_eq!(screen.get_px(0, 3), None);
    assert_eq!(lit(&screen, (0, 0, 0)), vec![]);
}

#[test]
fn a_refused_pixel_does_not_query_the_color() {
    let mut screen = surface(4, 3);
    let mut rainbow = RainbowCycleBuilder::new().into_cycle();
    assert_eq!(screen.blend_px(9, 9, &mut rainbow), Err(ScreenError::OutOfBounds));
    assert_eq!(screen.set_px(9, 9, &mut rainbow), Err(ScreenError::OutOfBounds));
    assert_eq!(rainbow.as_rgba(), (255, 1, 0, 255));
}

#[test]
fn opaque_blend_is_set() {
    for color in [[0x12u8, 0x34, 0x56, 255], [255, 255, 255, 255], [0, 0, 0, 255], [7, 130, 99, 255]] {
        let mut blended = surface(5, 4);
        let mut set = surface(5, 4);
        blended.fill(&mut [40u8, 80, 120]);
        set.fill(&mut [40u8, 80, 120]);
        let mut c = color;
        assert_eq!(blended.blend_px(3, 2, &mut c), Ok(()));
        assert_eq!(set.set_px(3, 2, &mut c), Ok(()));
        assert!(same_pixels(&blended, &set));
        assert_eq!(blended.get_px(3, 2), Some((color[0] & 0xF8, color[1] & 0xFC, color[2] & 0xF8)));
    }
}

#[test]
fn transparent_blend_changes_nothing() {
    let mut screen = surface(5, 4);
    screen.fill(&mut [40u8, 80, 120]);
    assert_eq!(screen.blend_px(3, 2, &mut [255u8, 255, 255, 0]), Ok(()));
    assert_eq!(lit(&screen, (40, 80, 120)), vec![]);
}

#[test]
fn partial_blend_mixes_with_what_is_shown() {
    let mut screen = surface(5, 4);
    assert_eq!(screen.blend_px(1, 1, &mut [255u8, 255, 255, 128]), Ok(()));
    // (128 * 255) / 256 = 127 in each channel, then packed.
    assert_eq!(screen.get_px(1, 1), Some((120, 124, 120)));
    screen.fill(&mut [200u8, 100, 48]);
    assert_eq!(screen.get_px(1, 1), Some((200, 100, 48)));
    assert_eq!(screen.blend_px(1, 1, &mut [0u8, 255, 100, 64]), Ok(()));
    // r: 191 * 200 / 256 = 149; g: (64 * 255 + 191 * 100) / 256 = 138;
    // b: (64 * 100 + 191 * 48) / 256 = 60.
    assert_eq!(screen.get_px(1, 1), Some((144, 136, 56)));
    assert_eq!(lit(&screen, (200, 100, 48)), vec![(1, 1)]);
}

#[test]
fn fill_covers_every_pixel() {
    let mut screen = surface(7, 5);
    screen.fill(&mut [0x12u8, 0x34, 0x56, 3]);
    assert_eq!(lit(&screen, (0x10, 0x34, 0x50)), vec![]);
    screen.fill(&mut NamedColor::White);
    assert_eq!(lit(&screen, (0xF8, 0xFC, 0xF8)), vec![]);
}

#[test]
fn render_image_white_on_black_is_white() {
    let screen = surface(1, 1);
    let out = screen.render_image(&[255, 255, 255, 255], &mut NamedColor::Black);
    assert_eq!(out, Ok(vec![0xFF, 0xFF]));
}

#[test]
fn render_image_transparent_is_background() {
    let screen = surface(1, 1);
    let out = screen.render_image(&[255, 255, 255, 0], &mut NamedColor::Black);
    assert_eq!(out, Ok(vec![0x00, 0x00]));
    let out = screen.render_image(&[9, 9, 9, 0], &mut NamedColor::Cyan);
    assert_eq!(out, Ok(vec![0xFF, 0x07]));
}

#[test]
fn render_image_keeps_the_order_of_pixels_and_bytes() {
    let screen = surface(1, 1);
    let data = [255, 0, 0, 255, 0, 255, 0, 255, 0, 0, 255, 255];
    let out = screen.render_image(&data, &mut NamedColor::Black);
    assert_eq!(out, Ok(vec![0x00, 0xF8, 0xE0, 0x07, 0x1F, 0x00]));
    assert_eq!(screen.render_image(&[], &mut NamedColor::Black), Ok(vec![]));
}

#[test]
fn render_image_refuses_part_of_a_pixel() {
    let screen = surface(1, 1);
    let mut rainbow = RainbowCycleBuilder::new().into_cycle();
    assert_eq!(screen.render_image(&[1, 2, 3], &mut rainbow), Err(ScreenError::Malformed));
    assert_eq!(screen.render_image(&[1, 2, 3, 4, 5], &mut rainbow), Err(ScreenError::Malformed));
    assert_eq!(rainbow.as_rgba(), (255, 1, 0, 255));
}

#[test]
fn blit_copies_rows() {
    let mut screen = surface(5, 4);
    let image = screen
        .render_image(
            &[255, 0, 0, 255, 0, 255, 0, 255, 0, 0, 255, 255, 255, 255, 255, 255, 0, 0, 0, 255, 16, 16, 16, 255],
            &mut NamedColor::Black,
        )
        .unwrap();
    assert_eq!(screen.blit_image(2, 1, 3, &image), Ok(()));
    assert_eq!(lit(&screen, (0, 0, 0)), vec![(2, 1), (3, 1), (4, 1), (2, 2), (4, 2)]);
    assert_eq!(screen.get_px(2, 1), Some((0xF8, 0, 0)));
    assert_eq!(screen.get_px(3, 1), Some((0, 0xFC, 0)));
    assert_eq!(screen.get_px(4, 1), Some((0, 0, 0xF8)));
    assert_eq!(screen.get_px(2, 2), Some((0xF8, 0xFC, 0xF8)));
    assert_eq!(screen.get_px(3, 2), Some((0, 0, 0)));
    assert_eq!(screen.get_px(4, 2), Some((8, 12, 8)));
}

#[test]
fn blit_refuses_what_does_not_fit() {
    let mut screen = surface(5, 4);
    let image = vec![0xFFu8; 12];
    assert_eq!(screen.blit_image(3, 1, 3, &image), Err(ScreenError::OutOfBounds));
    assert_eq!(screen.blit_image(2, 3, 3, &image), Err(ScreenError::OutOfBounds));
    assert_eq!(screen.blit_image(0, 0, 6, &image), Err(ScreenError::OutOfBounds));
    assert_eq!(screen.blit_image(0, 0, 0, &image), Err(ScreenError::Malformed));
    assert_eq!(screen.blit_image(0, 0, 4, &image), Err(ScreenError::Malformed));
    assert_eq!(screen.blit_image(0, 0, 5, &image), Err(ScreenError::Malformed));
    assert_eq!(screen.blit_image(0, 0, usize::MAX, &image), Err(ScreenError::Malformed));
    assert_eq!(screen.blit_image(0, 0, usize::MAX, &[]), Err(ScreenError::OutOfBounds));
    assert_eq!(lit(&screen, (0, 0, 0)), vec![]);
    assert_eq!(screen.blit_image(2, 2, 3, &image), Ok(()));
    assert_eq!(lit(&screen, (0, 0, 0)).len(), 6);
}

#[test]
fn blend_image_blends_each_pixel() {
    let mut screen = surface(4, 3);
    let data = [255, 255, 255, 255, 255, 255, 255, 0, 255, 255, 255, 128, 0x12, 0x34, 0x56, 255];
    assert_eq!(screen.blend_image(1, 1, 2, &data), Ok(()));
    assert_eq!(lit(&screen, (0, 0, 0)), vec![(1, 1), (1, 2), (2, 2)]);
    assert_eq!(screen.get_px(1, 1), Some((0xF8, 0xFC, 0xF8)));
    assert_eq!(screen.get_px(1, 2), Some((120, 124, 120)));
    assert_eq!(screen.get_px(2, 2), Some((0x10, 0x34, 0x50)));
}

#[test]
fn blend_image_refuses_what_does_not_fit() {
    let mut screen = surface(4, 3);
    let data = [255u8; 16];
    assert_eq!(screen.blend_image(3, 0, 2, &data), Err(ScreenError::OutOfBounds));
    assert_eq!(screen.blend_image(0, 2, 2, &data), Err(ScreenError::OutOfBounds));
    assert_eq!(screen.blend_image(0, 0, 5, &[255u8; 20]), Err(ScreenError::OutOfBounds));
    assert_eq!(screen.blend_image(0, 0, 0, &data), Err(ScreenError::Malformed));
    assert_eq!(screen.blend_image(0, 0, 3, &data), Err(ScreenError::Malformed));
    assert_eq!(screen.blend_image(0, 0, 2, &data[..15]), Err(ScreenError::Malformed));
    assert_eq!(lit(&screen, (0, 0, 0)), vec![]);
    assert_eq!(screen.blend_image(2, 1, 2, &data), Ok(()));
    assert_eq!(lit(&screen, (0, 0, 0)).len(), 4);
}
