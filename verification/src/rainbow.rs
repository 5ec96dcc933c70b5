//! A colour that gradually changes through every maximum brightness colour.

use vstd::prelude::*;
use crate::gfx::color::{after_queries, nth_color, ColorSequence, ColorfulCycle, RGBA};

verus! {

/// The colour of the hue `hue`: the hue is scaled to six sectors of 32
/// units each, red to yellow, to green, to cyan, to blue, to magenta and back
/// to red; within a sector one channel is full, one is off and one rises or
/// falls with the position in the sector. Every colour is fully opaque.
pub open spec fn rainbow_rgba(hue: u8) -> RGBA {
    let h = hue as int * 192 / 256;
    let i = h / 32;
    let f = (h % 32) * 8;
    let qv = (128 * (256 - 255 * f / 256) / 256) as u8;
    let tv = (128 * (256 - 255 * (255 - f) / 256) / 256) as u8;
    if i == 0 {
        (255u8, tv, 0u8, 255u8)
    } else if i == 1 {
        (qv, 255u8, 0u8, 255u8)
    } else if i == 2 {
        (0u8, 255u8, tv, 255u8)
    } else if i == 3 {
        (0u8, qv, 255u8, 255u8)
    } else if i == 4 {
        (tv, 0u8, 255u8, 255u8)
    } else {
        (255u8, 0u8, qv, 255u8)
    }
}

/// The hue that follows `hue`: one more, and 0 after 255.
pub open spec fn next_hue(hue: u8) -> u8 {
    if hue == 255 {
        0u8
    } else {
        (hue + 1) as u8
    }
}

/// The RainbowCycle gradually changes through every maximum brightness color
/// that can be represented. It acts like color changing yarn, where you
/// can't necessarily predict which pixels will be which color, but could
/// work nicely when randomly distributed.
pub struct RainbowCycleBuilder {
    hue: u8,
}

impl View for RainbowCycleBuilder {
    type V = u8;

    /// The hue that the generator stands at.
    closed spec fn view(&self) -> u8 {
        self.hue
    }
}

impl RainbowCycleBuilder {
    /// A generator that stands at hue 0.
    pub fn new() -> (made: Self)
        ensures
            made@ == 0,
    {
        Self { hue: 0 }
    }

    /// Makes a cycling colour of the generator.
    pub fn into_cycle(self) -> (cycle: ColorfulCycle<RainbowCycleBuilder>)
        ensures
            cycle.generator == self,
    {
        ColorfulCycle { generator: self }
    }

    /// Converts the hue that the generator stands at to RGBA.
    pub fn as_rgba(&self) -> (rgba: RGBA)
        ensures
            rgba == rainbow_rgba(self@),
    {
        let h: u8 = ((self.hue as u16 * 192) / 256) as u8;
        let i: u8 = h / 32;
        let f: u8 = (h % 32) * 8;

        let s_inv: u8 = 0;
        let f_inv: u8 = 255 - f;

        let pv: u8 = (128 * s_inv as u16 / 256) as u8;
        let qv: u8 = (128 * (256 - 255 * f as u16 / 256) / 256) as u8;
        let tv: u8 = (128 * (256 - 255 * f_inv as u16 / 256) / 256) as u8;

        match i {
            0 => (u8::MAX, tv, pv, u8::MAX),
            1 => (qv, u8::MAX, pv, u8::MAX),
            2 => (pv, u8::MAX, tv, u8::MAX),
            3 => (pv, qv, u8::MAX, u8::MAX),
            4 => (tv, pv, u8::MAX, u8::MAX),
            _ => (u8::MAX, pv, qv, u8::MAX),
        }
    }

    /// Moves on to the next hue and returns its colour. The sequence never
    /// ends.
    pub fn next(&mut self) -> (item: Option<RGBA>)
        ensures
            item == Some(rainbow_rgba(next_hue(old(self)@))),
            final(self)@ == next_hue(old(self)@),
    {
        self.hue = self.hue.wrapping_add(1);
        Some(self.as_rgba())
    }
}

impl ColorSequence for RainbowCycleBuilder {
    open spec fn yielded(&self) -> RGBA {
        rainbow_rgba(next_hue(self@))
    }

    closed spec fn following(&self) -> Self {
        RainbowCycleBuilder { hue: next_hue(self.hue) }
    }

    fn next_color(&mut self) -> (rgba: RGBA)
        ensures
            final(self)@ == next_hue(old(self)@),
    {
        self.hue = self.hue.wrapping_add(1);
        self.as_rgba()
    }
}

/// Two generators that stand at the same hue are the same generator.
pub proof fn lemma_generator_by_hue(a: RainbowCycleBuilder, b: RainbowCycleBuilder)
    ensures
        a@ == b@ <==> a == b,
        a.following()@ == next_hue(a@),
{
}

/// After `n` queries a rainbow stands `n` hues further on, counted round
/// the circle of 256 hues.
pub proof fn lemma_rainbow_hue(cycle: ColorfulCycle<RainbowCycleBuilder>, n: nat)
    ensures
        after_queries(cycle, n).generator@ == (cycle.generator@ + n) % 256,
    decreases n,
{
    if n > 0 {
        lemma_rainbow_hue(cycle, (n - 1) as nat);
        lemma_generator_by_hue(
            after_queries(cycle, (n - 1) as nat).generator,
            after_queries(cycle, n).generator,
        );
    }
}

/// The rainbow is periodic with period 256: after 256 queries it is the
/// value that it was, so that from any query on the colours are those of 256
/// queries before.
pub proof fn lemma_rainbow_period(cycle: ColorfulCycle<RainbowCycleBuilder>, n: nat)
    ensures
        after_queries(cycle, 256) == cycle,
        after_queries(cycle, n + 256) == after_queries(cycle, n),
        nth_color(cycle, n + 256) == nth_color(cycle, n),
{
    lemma_rainbow_hue(cycle, 256);
    lemma_rainbow_hue(cycle, n);
    lemma_rainbow_hue(cycle, n + 256);
    lemma_generator_by_hue(after_queries(cycle, 256).generator, cycle.generator);
    lemma_generator_by_hue(
        after_queries(cycle, n + 256).generator,
        after_queries(cycle, n).generator,
    );
}

} // verus!
