//! The colour model: anything that can say which colour it currently is.

use vstd::prelude::*;

verus! {

/// Ergonomic rename of a 4-tuple of bytes: red, green, blue and alpha. Alpha 0
/// is fully transparent, 255 fully opaque.
pub type RGBA = (u8, u8, u8, u8);

/// Trait which can be applied to anything that can represent a color.
///
/// Asking for the colour may change the value that was asked: a fixed colour
/// stays what it is, a cycling one moves on to its next colour.
pub trait Colorful: Sized {
    /// The colour that the next query returns.
    spec fn upcoming(&self) -> RGBA;

    /// The value as it is after one query.
    spec fn advanced(&self) -> Self;

    /// Returns the value as a 24-bit color with alpha channel.
    fn as_rgba(&mut self) -> (rgba: RGBA)
        ensures
            rgba == old(self).upcoming(),
            *final(self) == old(self).advanced(),
    ;
}

/// The colour value `color` as it is after `n` queries.
pub open spec fn after_queries<C: Colorful>(color: C, n: nat) -> C
    decreases n,
{
    if n == 0 {
        color
    } else {
        after_queries(color, (n - 1) as nat).advanced()
    }
}

/// The colour that `color` returns at its query number `n`, counted from 0.
pub open spec fn nth_color<C: Colorful>(color: C, n: nat) -> RGBA {
    after_queries(color, n).upcoming()
}

/// Whether a colour value never changes and always returns the same colour.
pub open spec fn is_fixed<C: Colorful>(color: C) -> bool {
    color.advanced() == color
}

/// A fixed colour is the same value after any number of queries, and returns
/// the same colour at each of them.
pub proof fn lemma_fixed_color_stays<C: Colorful>(color: C, n: nat)
    requires
        is_fixed(color),
    ensures
        after_queries(color, n) == color,
        nth_color(color, n) == color.upcoming(),
    decreases n,
{
    if n > 0 {
        lemma_fixed_color_stays(color, (n - 1) as nat);
    }
}

/// An opaque colour given by its red, green and blue.
impl Colorful for [u8; 3] {
    open spec fn upcoming(&self) -> RGBA {
        (self[0], self[1], self[2], 255u8)
    }

    open spec fn advanced(&self) -> Self {
        *self
    }

    fn as_rgba(&mut self) -> (rgba: RGBA) {
        (self[0], self[1], self[2], u8::MAX)
    }
}

/// A colour given by its red, green, blue and alpha.
impl Colorful for [u8; 4] {
    open spec fn upcoming(&self) -> RGBA {
        (self[0], self[1], self[2], self[3])
    }

    open spec fn advanced(&self) -> Self {
        *self
    }

    fn as_rgba(&mut self) -> (rgba: RGBA) {
        (self[0], self[1], self[2], self[3])
    }
}

/// Seven fixed colours, each fully opaque.
#[derive(Clone, Copy, Debug)]
pub enum NamedColor {
    Red,
    Green,
    Blue,
    Black,
    White,
    Yellow,
    Cyan,
}

impl NamedColor {
    /// The channels of each named colour.
    pub open spec fn rgba(self) -> RGBA {
        match self {
            NamedColor::Red => (255u8, 0u8, 0u8, 255u8),
            NamedColor::Green => (0u8, 255u8, 0u8, 255u8),
            NamedColor::Blue => (0u8, 0u8, 255u8, 255u8),
            NamedColor::Black => (0u8, 0u8, 0u8, 255u8),
            NamedColor::White => (255u8, 255u8, 255u8, 255u8),
            NamedColor::Cyan => (0u8, 255u8, 255u8, 255u8),
            NamedColor::Yellow => (255u8, 255u8, 0u8, 255u8),
        }
    }
}

impl Colorful for NamedColor {
    open spec fn upcoming(&self) -> RGBA {
        self.rgba()
    }

    open spec fn advanced(&self) -> Self {
        *self
    }

    fn as_rgba(&mut self) -> (rgba: RGBA) {
        match self {
            NamedColor::Red => (u8::MAX, 0, 0, u8::MAX),
            NamedColor::Green => (0, u8::MAX, 0, u8::MAX),
            NamedColor::Blue => (0, 0, u8::MAX, u8::MAX),
            NamedColor::Black => (0, 0, 0, u8::MAX),
            NamedColor::White => (u8::MAX, u8::MAX, u8::MAX, u8::MAX),
            NamedColor::Cyan => (0, u8::MAX, u8::MAX, u8::MAX),
            NamedColor::Yellow => (u8::MAX, u8::MAX, 0, u8::MAX),
        }
    }
}

/// Each named colour is fixed and fully opaque.
pub proof fn lemma_named_color_fixed(color: NamedColor)
    ensures
        is_fixed(color),
        color.upcoming().3 == 255,
{
}

/// An endless sequence of colours that is pulled from one at a time and cannot
/// be rewound.
pub trait ColorSequence: Sized {
    /// The colour that the next pull returns.
    spec fn yielded(&self) -> RGBA;

    /// The sequence as it is after one pull.
    spec fn following(&self) -> Self;

    /// Pulls the next colour.
    fn next_color(&mut self) -> (rgba: RGBA)
        ensures
            rgba == old(self).yielded(),
            *final(self) == old(self).following(),
    ;
}

/// A colour that changes with every query: each one pulls the next colour of
/// its generator.
pub struct ColorfulCycle<G: ColorSequence> {
    pub generator: G,
}

impl<G: ColorSequence> Colorful for ColorfulCycle<G> {
    open spec fn upcoming(&self) -> RGBA {
        self.generator.yielded()
    }

    open spec fn advanced(&self) -> Self {
        ColorfulCycle { generator: self.generator.following() }
    }

    fn as_rgba(&mut self) -> (rgba: RGBA) {
        self.generator.next_color()
    }
}

} // verus!
