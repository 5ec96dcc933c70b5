use fbdraw::gfx::color::{Colorful, NamedColor};
use fbdraw::gfx::corner::{mask_at, CORNER_MASK};
use fbdraw::gfx::screen::{Screen, ScreenError};
use fbdraw::rainbow::RainbowCycleBuilder;
use memmap2::MmapMut;

const FILL: (u8, u8, u8) = (0xF8, 0, 0);
const BORDER: (u8, u8, u8) = (0xF8, 0xFC, 0xF8);
const BLANK: (u8, u8, u8) = (0, 0, 0);

fn board(width: usize, height: usize) -> Screen {
    Screen::new(MmapMut::map_anon(width * height * 2).unwrap(), width, height).unwrap()
}

/// Draws a 30 by 30 rectangle at (10, 5) and compares every pixel of the
/// display with the insets given for its 30 rows.
fn rect_30_matches(radius: usize, insets: [usize; 30]) {
    let mut screen = board(60, 45);
    assert_eq!(
        screen.draw_rect(10, 5, 30, 30, radius, &mut NamedColor::Red, &mut NamedColor::White),
        Ok(())
    );
    for y in 0..45usize {
        for x in 0..60usize {
            let expected = if y < 5 || y >= 35 {
                BLANK
            } else {
                let j = y - 5;
                let sx = 10 + insets[j];
                let ex = 40 - insets[j];
                if x < sx || x > ex {
                    BLANK
                } else if x == sx || x == ex || j == 0 || j == 29 {
                    BORDER
                } else {
                    FILL
                }
            };
            assert_eq!(screen.get_px(x, y), Some(expected), "radius {} at ({}, {})", radius, x, y);
        }
    }
}

#[test]
fn rect_radius_0() {
    rect_30_matches(0, [0; 30]);
}

#[test]
fn rect_radius_1() {
    let mut insets = [0; 30];
    insets[0] = 1;
    insets[29] = 1;
    rect_30_matches(1, insets);
}

#[test]
fn rect_radius_2() {
    let mut insets = [0; 30];
    insets[..2].copy_from_slice(&[2, 1]);
    insets[28..].copy_from_slice(&[1, 2]);
    rect_30_matches(2, insets);
}

#[test]
fn rect_radius_3() {
    let mut insets = [0; 30];
    insets[..3].copy_from_slice(&[3, 2, 1]);
    insets[27..].copy_from_slice(&[1, 2, 3]);
    rect_30_matches(3, insets);
}

#[test]
fn rect_radius_4() {
    let mut insets = [0; 30];
    insets[..4].copy_from_slice(&[4, 2, 1, 1]);
    insets[26..].copy_from_slice(&[1, 1, 2, 4]);
    rect_30_matches(4, insets);
}

#[test]
fn rect_radius_5() {
    let mut insets = [0; 30];
    insets[..5].copy_from_slice(&[5, 3, 2, 1, 1]);
    insets[25..].copy_from_slice(&[1, 1, 2, 3, 5]);
    rect_30_matches(5, insets);
}

#[test]
fn rect_radius_6() {
    let mut insets = [0; 30];
    insets[..6].copy_from_slice(&[6, 4, 2, 2, 1, 1]);
    insets[24..].copy_from_slice(&[1, 1, 2, 2, 4, 6]);
    rect_30_matches(6, insets);
}

#[test]
fn rect_radius_7() {
    let mut insets = [0; 30];
    insets[..7].copy_from_slice(&[7, 5, 4, 3, 2, 1, 1]);
    insets[23..].copy_from_slice(&[1, 1, 2, 3, 4, 5, 7]);
    rect_30_matches(7, insets);
}

#[test]
fn rect_radius_8() {
    // The eighth row of this mask is 1, and it counts for every row from
    // the eighth on, from the top and from the bottom.
    let mut insets = [2; 30];
    insets[..8].copy_from_slice(&[9, 7, 5, 4, 3, 3, 2, 2]);
    insets[22..].copy_from_slice(&[2, 2, 3, 3, 4, 5, 7, 9]);
    rect_30_matches(8, insets);
}

#[test]
fn rect_radius_too_large_is_a_third_of_the_shorter_side() {
    assert_eq!(Screen::clamp_radius(30, 30, 15), 15);
    assert_eq!(Screen::clamp_radius(30, 30, 16), 10);
    assert_eq!(Screen::clamp_radius(30, 30, usize::MAX), 10);
    assert_eq!(Screen::clamp_radius(10, 4, 3), 1);
    assert_eq!(Screen::clamp_radius(4, 10, 2), 2);
    assert_eq!(Screen::clamp_radius(0, 0, 0), 0);
    assert_eq!(Screen::clamp_radius(17, 9, 5), 3);
    // 30 by 30 with a radius of 16 is drawn as with radius 10, which uses the
    // mask of radius 8.
    let mut clamped = board(60, 45);
    let mut eight = board(60, 45);
    assert_eq!(clamped.draw_rect(10, 5, 30, 30, 16, &mut NamedColor::Red, &mut NamedColor::White), Ok(()));
    assert_eq!(eight.draw_rect(10, 5, 30, 30, 8, &mut NamedColor::Red, &mut NamedColor::White), Ok(()));
    for y in 0..45 {
        for x in 0..60 {
            assert_eq!(clamped.get_px(x, y), eight.get_px(x, y));
        }
    }
}

#[test]
fn rect_small_sizes() {
    // 3 by 3 with radius 5 is drawn with radius 1.
    let mut screen = board(12, 12);
    assert_eq!(screen.draw_rect(4, 4, 3, 3, 5, &mut NamedColor::Red, &mut NamedColor::White), Ok(()));
    let mut lit = Vec::new();
    for y in 0..12 {
        for x in 0..12 {
            if screen.get_px(x, y) != Some(BLANK) {
                lit.push((x, y, screen.get_px(x, y).unwrap()));
            }
        }
    }
    assert_eq!(
        lit,
        vec![
            (5, 4, BORDER),
            (6, 4, BORDER),
            (4, 5, BORDER),
            (5, 5, FILL),
            (6, 5, FILL),
            (7, 5, BORDER),
            (5, 6, BORDER),
            (6, 6, BORDER),
        ]
    );
    // No rows: nothing is drawn.
    let mut empty = board(12, 12);
    assert_eq!(empty.draw_rect(4, 4, 3, 0, 0, &mut NamedColor::Red, &mut NamedColor::White), Ok(()));
    for y in 0..12 {
        for x in 0..12 {
            assert_eq!(empty.get_px(x, y), Some(BLANK));
        }
    }
}

#[test]
fn rect_near_the_origin_is_not_drawn() {
    let mut screen = board(40, 40);
    let mut rainbow = RainbowCycleBuilder::new().into_cycle();
    assert_eq!(screen.draw_rect(1, 5, 10, 10, 0, &mut rainbow, &mut NamedColor::White), Ok(()));
    assert_eq!(screen.draw_rect(5, 1, 10, 10, 0, &mut rainbow, &mut NamedColor::White), Ok(()));
    assert_eq!(screen.draw_rect(0, 0, 100, 100, 0, &mut rainbow, &mut NamedColor::White), Ok(()));
    for y in 0..40 {
        for x in 0..40 {
            assert_eq!(screen.get_px(x, y), Some(BLANK));
        }
    }
    assert_eq!(rainbow.as_rgba(), (255, 1, 0, 255));
}

#[test]
fn rect_beyond_the_display_is_refused() {
    let mut screen = board(40, 40);
    let mut rainbow = RainbowCycleBuilder::new().into_cycle();
    let mut white = NamedColor::White;
    assert_eq!(screen.draw_rect(10, 10, 30, 10, 0, &mut rainbow, &mut white), Err(ScreenError::OutOfBounds));
    assert_eq!(screen.draw_rect(10, 10, 10, 31, 0, &mut rainbow, &mut white), Err(ScreenError::OutOfBounds));
    assert_eq!(screen.draw_rect(40, 10, 0, 1, 0, &mut rainbow, &mut white), Err(ScreenError::OutOfBounds));
    assert_eq!(
        screen.draw_rect(2, 2, usize::MAX, usize::MAX, 0, &mut rainbow, &mut white),
        Err(ScreenError::OutOfBounds)
    );
    for y in 0..40 {
        for x in 0..40 {
            assert_eq!(screen.get_px(x, y), Some(BLANK));
        }
    }
    assert_eq!(rainbow.as_rgba(), (255, 1, 0, 255));
    assert_eq!(screen.draw_rect(10, 10, 29, 30, 0, &mut rainbow, &mut white), Ok(()));
    assert_eq!(screen.get_px(39, 39), Some(BORDER));
}

#[test]
fn rect_queries_its_colors_pixel_by_pixel() {
    // Two rows of three columns: each row takes three fill colours and two
    // border colours, and as first and last row three border colours more.
    let mut screen = board(10, 10);
    let mut fill = RainbowCycleBuilder::new().into_cycle();
    let mut border = RainbowCycleBuilder::new().into_cycle();
    assert_eq!(screen.draw_rect(3, 3, 2, 2, 0, &mut fill, &mut border), Ok(()));
    let mut plain = RainbowCycleBuilder::new();
    for _ in 0..6 {
        plain.next();
    }
    assert_eq!(Some(fill.as_rgba()), plain.next());
    for _ in 0..3 {
        plain.next();
    }
    assert_eq!(Some(border.as_rgba()), plain.next());
}

#[test]
fn corner_mask_rows() {
    assert_eq!(CORNER_MASK.len(), 72);
    assert_eq!(mask_at(0, 0), 0);
    assert_eq!(mask_at(4, 0), 4);
    assert_eq!(mask_at(4, 1), 2);
    assert_eq!(mask_at(7, 6), 1);
    assert_eq!(mask_at(7, 7), 0);
    assert_eq!(mask_at(8, 7), 1);
    for radius in 0..=8 {
        assert_eq!(mask_at(radius, 0) as usize, radius);
    }
}
