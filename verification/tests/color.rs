use fbdraw::gfx::color::{Colorful, NamedColor};
use fbdraw::rainbow::RainbowCycleBuilder;

#[test]
fn named_colors_are_opaque_constants() {
    assert_eq!(NamedColor::Red.as_rgba(), (255, 0, 0, 255));
    assert_eq!(NamedColor::Green.as_rgba(), (0, 255, 0, 255));
    assert_eq!(NamedColor::Blue.as_rgba(), (0, 0, 255, 255));
    assert_eq!(NamedColor::Black.as_rgba(), (0, 0, 0, 255));
    assert_eq!(NamedColor::White.as_rgba(), (255, 255, 255, 255));
    assert_eq!(NamedColor::Yellow.as_rgba(), (255, 255, 0, 255));
    assert_eq!(NamedColor::Cyan.as_rgba(), (0, 255, 255, 255));
}

#[test]
fn arrays_are_colors() {
    assert_eq!([1u8, 2, 3].as_rgba(), (1, 2, 3, 255));
    assert_eq!([1u8, 2, 3, 4].as_rgba(), (1, 2, 3, 4));
}

#[test]
fn fixed_color_answers_the_same_twice() {
    let mut c = [9u8, 8, 7, 6];
    let first = c.as_rgba();
    let second = c.as_rgba();
    assert_eq!(first, second);
    assert_eq!(c, [9u8, 8, 7, 6]);
}

#[test]
fn rainbow_exact_values() {
    let g = RainbowCycleBuilder::new();
    assert_eq!(g.as_rgba(), (255, 1, 0, 255));
    let mut g = RainbowCycleBuilder::new();
    assert_eq!(g.next(), Some((255, 1, 0, 255)));
    let mut last = (0, 0, 0, 0);
    for _ in 1..128 {
        last = g.next().unwrap();
    }
    // hue 128: the start of the fourth sector.
    assert_eq!(last, (0, 128, 255, 255));
    // hue 129 scales to the same position.
    assert_eq!(g.next(), Some((0, 128, 255, 255)));
    // hue 130 falls on position 97: one step into the sector.
    assert_eq!(g.next(), Some((0, 124, 255, 255)));
}

#[test]
fn rainbow_is_always_opaque_with_one_full_channel() {
    let mut g = RainbowCycleBuilder::new();
    for _ in 0..256 {
        let (r, gr, b, a) = g.next().unwrap();
        assert_eq!(a, 255);
        assert!(r == 255 || gr == 255 || b == 255);
        assert!(r == 0 || gr == 0 || b == 0);
    }
}

#[test]
fn rainbow_repeats_after_256_steps() {
    let mut first_run = RainbowCycleBuilder::new();
    let first: Vec<(u8, u8, u8, u8)> = (0..256).map(|_| first_run.next().unwrap()).collect();
    let again: Vec<(u8, u8, u8, u8)> = (0..256).map(|_| first_run.next().unwrap()).collect();
    assert_eq!(first, again);
    let mut second_run = RainbowCycleBuilder::new();
    let second: Vec<(u8, u8, u8, u8)> = (0..256).map(|_| second_run.next().unwrap()).collect();
    assert_eq!(first, second);
}

#[test]
fn cycle_pulls_one_color_per_query() {
    let mut cycle = RainbowCycleBuilder::new().into_cycle();
    let mut plain = RainbowCycleBuilder::new();
    for _ in 0..600 {
        assert_eq!(Some(cycle.as_rgba()), plain.next());
    }
}
