//! Rendered text: an RGBA bitmap of a line of text, and its packed form for
//! the display.

use vstd::prelude::*;
use rusttype::Font;
use crate::gfx::color::{Colorful, RGBA};
use crate::gfx::render::rendered;
use crate::gfx::screen::Screen;

verus! {

/// `rusttype::Font`, a font that was read from font data. Verus sees nothing
/// inside it.
#[verifier::external_type_specification]
#[verifier::external_body]
pub struct ExFont<'a>(rusttype::Font<'a>);

/// Whether `Font::try_from_bytes` reads a font from the bytes. What it makes
/// of bytes depends on the bytes alone; its documentation says that it
/// returns `None` for invalid data, and which data is valid is what the font
/// parser behind it decides. Nothing else is stated of it: this is a name for
/// that decision.
pub uninterp spec fn is_font(bytes: Seq<u8>) -> bool;

/// Can render text: holds the fonts that were loaded, each under its name.
/// Fonts live as long as the program.
pub struct TextRenderer {
    font_cache: Vec<(String, Font<'static>)>,
}

impl TextRenderer {
    /// The names of the fonts, in the order in which they were loaded.
    pub closed spec fn names(&self) -> Seq<Seq<char>> {
        Seq::new(self.font_cache@.len(), |i: int| self.font_cache@[i].0@)
    }

    /// The fonts, in the order in which they were loaded.
    pub closed spec fn fonts(&self) -> Seq<Font<'static>> {
        Seq::new(self.font_cache@.len(), |i: int| self.font_cache@[i].1)
    }

    /// A renderer without fonts.
    pub fn new() -> (made: Self)
        ensures
            made.names() == Seq::<Seq<char>>::empty(),
            made.fonts() == Seq::<Font<'static>>::empty(),
    {
        let made = TextRenderer { font_cache: Vec::new() };
        assert(made.names() =~= Seq::<Seq<char>>::empty());
        assert(made.fonts() =~= Seq::<Font<'static>>::empty());
        made
    }

    /// Puts a font under a name behind the fonts that are there, where there
    /// is a font to put. Says whether it did.
    pub fn add_font(&mut self, named: &str, font: Option<Font<'static>>) -> (added: bool)
        ensures
            added == font is Some,
            font matches Some(f) ==> final(self).names() == old(self).names().push(named@)
                && final(self).fonts() == old(self).fonts().push(f),
            font is None ==> final(self).names() == old(self).names() && final(self).fonts()
                == old(self).fonts(),
    {
        match font {
            Some(f) => {
                self.font_cache.push((named.to_owned(), f));
                assert(self.names() =~= old(self).names().push(named@));
                assert(self.fonts() =~= old(self).fonts().push(f));
                true
            },
            None => false,
        }
    }

    /// Loads a font with a given name from font data. Data that is no font
    /// is not loaded; the answer says whether the font was.
    pub fn load_font(&mut self, named: &str, bytes: &'static [u8]) -> (loaded: bool)
        ensures
            loaded == is_font(bytes@),
            loaded ==> final(self).names() == old(self).names().push(named@),
            loaded ==> final(self).fonts().len() == old(self).fonts().len() + 1,
            loaded ==> final(self).fonts().drop_last() == old(self).fonts(),
            !loaded ==> final(self).names() == old(self).names(),
            !loaded ==> final(self).fonts() == old(self).fonts(),
    {
        let font = font_from_bytes(bytes);
        let loaded = self.add_font(named, font);
        proof {
            if loaded {
                assert(self.fonts().drop_last() =~= old(self).fonts());
            }
        }
        loaded
    }

    /// Returns the font that was loaded first under the given name, or
    /// `None` where no font has that name.
    pub fn find_font(&self, named: &str) -> (found: Option<&Font<'static>>)
        ensures
            found is None <==> !self.names().contains(named@),
            found matches Some(f) ==> exists|i: int|
                0 <= i < self.names().len() && self.names()[i] == named@ && self.fonts()[i] == *f
                    && forall|j: int| 0 <= j < i ==> self.names()[j] != named@,
    {
        let wanted = named.to_owned();
        let mut i: usize = 0;
        while i < self.font_cache.len()
            invariant
                0 <= i <= self.font_cache@.len(),
                wanted@ == named@,
                forall|j: int| 0 <= j < i ==> self.names()[j] != named@,
            decreases self.font_cache@.len() - i,
        {
            if self.font_cache[i].0 == wanted {
                assert(self.names()[i as int] == named@);
                return Some(&self.font_cache[i].1);
            }
            i += 1;
        }
        None
    }
}

impl Default for TextRenderer {
    /// A renderer without fonts.
    fn default() -> (made: Self)
        ensures
            made.names() == Seq::<Seq<char>>::empty(),
            made.fonts() == Seq::<Font<'static>>::empty(),
    {
        TextRenderer::new()
    }
}

/// `Font::try_from_bytes`: the font that it reads from the bytes, or `None`
/// for data that is no font. It returns a font exactly for the bytes that
/// `is_font` names; nothing is stated of the font itself.
#[verifier::external_body]
fn font_from_bytes(bytes: &'static [u8]) -> (font: Option<Font<'static>>)
    ensures
        font is Some <==> is_font(bytes@),
{
    Font::try_from_bytes(bytes)
}

/// Text in the packed format of the display, ready to be copied to it.
pub struct BlittableText {
    pub data: Vec<u8>,
    pub width: usize,
}

/// What a rendered text is: the text, its RGBA bitmap and the width of the
/// bitmap in pixels.
pub struct TextView {
    pub text: Seq<char>,
    pub bitmap: Seq<u8>,
    pub width: nat,
}

impl TextView {
    /// The number of rows of the bitmap.
    pub open spec fn height(self) -> nat {
        if self.width == 0 {
            0
        } else {
            self.bitmap.len() / 4 / self.width
        }
    }

    /// The bitmap holds whole pixels in whole rows of `width` pixels.
    pub open spec fn wf(self) -> bool {
        self.bitmap.len() == self.width * self.height() * 4
    }

    /// Whether the bitmap has a pixel `(x, y)`.
    pub open spec fn contains(self, x: int, y: int) -> bool {
        0 <= x < self.width && 0 <= y < self.height()
    }

    /// The index of the first of the four bytes of the pixel `(x, y)`.
    pub open spec fn offset(self, x: int, y: int) -> int {
        x * 4 + y * (self.width * 4)
    }

    /// The text with the pixel `(x, y)` of its bitmap set to `rgba`.
    pub open spec fn plotted(self, x: int, y: int, rgba: RGBA) -> TextView {
        TextView {
            bitmap: self.bitmap.update(self.offset(x, y), rgba.0).update(
                self.offset(x, y) + 1,
                rgba.1,
            ).update(self.offset(x, y) + 2, rgba.2).update(self.offset(x, y) + 3, rgba.3),
            ..self
        }
    }
}

/// A rendered line of text.
pub struct Text {
    text: String,
    bitmap: Vec<u8>,
    width: usize,
}

impl View for Text {
    type V = TextView;

    closed spec fn view(&self) -> TextView {
        TextView { text: self.text@, bitmap: self.bitmap@, width: self.width as nat }
    }
}

impl Text {
    /// A text with a fully transparent bitmap of `width` by `height` pixels,
    /// or `None` where a bitmap of that size cannot be addressed.
    pub fn blank(text: String, width: usize, height: usize) -> (made: Option<Text>)
        ensures
            made is Some <==> width * height * 4 <= usize::MAX,
            made matches Some(t) ==> t@.wf() && t@ == (TextView {
                text: text@,
                bitmap: Seq::new((width * height * 4) as nat, |i: int| 0u8),
                width: width as nat,
            }),
    {
        let pixels: usize = match width.checked_mul(height) {
            Some(p) => p,
            None => {
                assert(width * height * 4 >= width * height) by (nonlinear_arith)
                    requires
                        width * height >= 0,
                ;
                return None;
            },
        };
        let len: usize = match pixels.checked_mul(4) {
            Some(l) => l,
            None => {
                return None;
            },
        };
        let mut bitmap: Vec<u8> = Vec::new();
        let mut i: usize = 0;
        while i < len
            invariant
                0 <= i <= len,
                bitmap@ == Seq::new(i as nat, |k: int| 0u8),
            decreases len - i,
        {
            bitmap.push(0);
            proof {
                assert(bitmap@ =~= Seq::new((i + 1) as nat, |k: int| 0u8));
            }
            i += 1;
        }
        let made = Text { text, bitmap, width };
        proof {
            if width > 0 {
                assert(width * height * 4 / 4 == width * height);
                vstd::arithmetic::div_mod::lemma_div_by_multiple(height as int, width as int);
                assert(height * width == width * height) by (nonlinear_arith);
            } else {
                assert(width * height * 4 == 0) by (nonlinear_arith)
                    requires
                        width == 0,
                ;
            }
        }
        Some(made)
    }

    /// The width of the bitmap in pixels.
    pub fn width(&self) -> (w: usize)
        ensures
            w == self@.width,
    {
        self.width
    }

    /// The number of rows of the bitmap.
    pub fn height(&self) -> (h: usize)
        ensures
            h == self@.height(),
    {
        if self.width == 0 {
            0
        } else {
            self.bitmap.len() / 4 / self.width
        }
    }

    /// Sets the pixel `(x, y)` of the bitmap to `rgba`. A pixel that the
    /// bitmap does not have is passed over: a glyph may reach beyond the
    /// boundaries of the bitmap.
    pub fn plot(&mut self, x: i32, y: i32, rgba: RGBA)
        requires
            old(self)@.wf(),
        ensures
            final(self)@.wf(),
            old(self)@.contains(x as int, y as int) ==> final(self)@ == old(self)@.plotted(
                x as int,
                y as int,
                rgba,
            ),
            !old(self)@.contains(x as int, y as int) ==> final(self)@ == old(self)@,
    {
        let height = self.height();
        let len = self.bitmap.len();
        if x >= 0 && (x as usize) < self.width && y >= 0 && (y as usize) < height {
            proof {
                assert(self.width * 4 <= self.width * height * 4) by (nonlinear_arith)
                    requires
                        1 <= height,
                        0 <= self.width,
                ;
                assert(x * 4 + y * (self.width * 4) + 4 <= self.width * height * 4)
                    by (nonlinear_arith)
                    requires
                        0 <= x < self.width,
                        0 <= y < height,
                ;
                assert(0 <= y * (self.width * 4)) by (nonlinear_arith)
                    requires
                        0 <= y,
                        0 <= self.width,
                ;
            }
            let off: usize = (x as usize * 4) + y as usize * (self.width * 4);
            self.bitmap[off] = rgba.0;
            self.bitmap[off + 1] = rgba.1;
            self.bitmap[off + 2] = rgba.2;
            self.bitmap[off + 3] = rgba.3;
        }
    }

    /// Prepares the texture for blitting onto the given screen: the bitmap
    /// composited over `background` and packed, under the same width.
    pub fn into_blittable<C: Colorful>(self, screen: &Screen, background: &mut C) -> (out:
        BlittableText)
        requires
            self@.wf(),
        ensures
            out.data@ == rendered(
                self@.bitmap,
                old(background).upcoming().0,
                old(background).upcoming().1,
                old(background).upcoming().2,
            ),
            out.width == self@.width,
            *final(background) == old(background).advanced(),
    {
        proof {
            assert((self@.width * self@.height() * 4) % 4 == 0) by (nonlinear_arith);
        }
        let width = self.width;
        match screen.render_image(self.bitmap.as_slice(), background) {
            Ok(data) => BlittableText { data, width },
            Err(_) => BlittableText { data: Vec::new(), width },
        }
    }
}

} // verus!
