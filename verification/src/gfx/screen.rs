//! The display surface in mapped memory, and the operations that draw on it.

use vstd::prelude::*;
use memmap2::MmapMut;
use crate::gfx::codec::{blend, color_from_16_bits, color_to_16_bits, pack};
use crate::gfx::color::Colorful;
use crate::gfx::mapping::{map_len, map_read, map_write, mapped_bytes};
use crate::bresenham;
use crate::bresenham::line_points;
use crate::gfx::corner::{mask_at, MASK_SIZE};
use crate::gfx::render::{render_rgba, rendered};
use crate::gfx::surface::{
    effective_radius, lemma_cell, lemma_offset_in_bytes, lemma_whole_rows, rect_row, rect_rows,
    rounded_rect, row_inset, Surface,
};

verus! {

/// Why an operation on the display was refused.
#[derive(Clone, Copy, Debug, PartialEq, Eq, Structural)]
pub enum ScreenError {
    /// The mapped region does not have two bytes for each pixel of the
    /// display, or the display is wider or higher than `i32::MAX` pixels.
    SizeMismatch,
    /// A pixel outside the display would have been touched.
    OutOfBounds,
    /// A buffer does not hold whole pixels, or not whole rows of the width
    /// given with it.
    Malformed,
}

/// The display: the mapped memory of the device and its size in pixels.
pub struct Screen {
    map: MmapMut,
    width: usize,
    height: usize,
}

impl View for Screen {
    type V = Surface;

    closed spec fn view(&self) -> Surface {
        Surface {
            width: self.width as nat,
            height: self.height as nat,
            bytes: mapped_bytes(self.map),
        }
    }
}

impl Screen {
    /// The mapped region has two bytes for each pixel, its length is one that
    /// the machine can address, and both sides of the display fit in an `i32`.
    pub open spec fn wf(&self) -> bool {
        &&& self@.wf()
        &&& self@.bytes.len() <= usize::MAX
        &&& self@.width <= i32::MAX
        &&& self@.height <= i32::MAX
    }

    /// Takes a mapped region as a display of `width` by `height` pixels. The
    /// region has to be of exactly `width * height * 2` bytes.
    pub fn new(map: MmapMut, width: usize, height: usize) -> (made: Result<Screen, ScreenError>)
        ensures
            (mapped_bytes(map).len() == width * height * 2 && width <= i32::MAX && height
                <= i32::MAX) ==> made is Ok,
            made is Ok ==> mapped_bytes(map).len() == width * height * 2 && width <= i32::MAX
                && height <= i32::MAX,
            made matches Ok(screen) ==> screen.wf() && screen@ == (Surface {
                width: width as nat,
                height: height as nat,
                bytes: mapped_bytes(map),
            }),
            made matches Err(e) ==> e == ScreenError::SizeMismatch,
    {
        if width > i32::MAX as usize || height > i32::MAX as usize {
            return Err(ScreenError::SizeMismatch);
        }
        assert(width * height <= 0x7fff_ffff * 0x7fff_ffff) by (nonlinear_arith)
            requires
                width <= 0x7fff_ffff,
                height <= 0x7fff_ffff,
        ;
        let pixels: u64 = width as u64 * height as u64;
        if map_len(&map) as u64 != pixels * 2 {
            return Err(ScreenError::SizeMismatch);
        }
        Ok(Screen { map, width, height })
    }

    /// The number of pixels in a row.
    pub fn width(&self) -> (w: usize)
        ensures
            w == self@.width,
    {
        self.width
    }

    /// The number of rows.
    pub fn height(&self) -> (h: usize)
        ensures
            h == self@.height,
    {
        self.height
    }

    /// Whether `(x, y)` is a pixel of the display.
    pub fn holds(&self, x: i32, y: i32) -> (inside: bool)
        requires
            self.wf(),
        ensures
            inside == self@.contains(x as int, y as int),
    {
        x >= 0 && y >= 0 && (x as usize) < self.width && (y as usize) < self.height
    }

    /// Retrieves the buffer coordinate of the given X and Y coordinate.
    fn buffer_offset(&self, x: usize, y: usize) -> (off: usize)
        requires
            self.wf(),
            self@.contains(x as int, y as int),
        ensures
            off == self@.offset(x as int, y as int),
            off + 1 < self@.bytes.len(),
    {
        proof {
            lemma_offset_in_bytes(self@, x as int, y as int);
            assert(0 <= (self.width * 2) * y) by (nonlinear_arith)
                requires
                    0 <= self.width,
                    0 <= y,
            ;
        }
        (self.width * 2 * y) + x * 2
    }

    /// Overwrites the pixel at `(x, y)` with the packed form of `(r, g, b)`.
    fn put_px(&mut self, x: usize, y: usize, r: u8, g: u8, b: u8)
        requires
            old(self).wf(),
            old(self)@.contains(x as int, y as int),
        ensures
            final(self).wf(),
            final(self)@.width == old(self)@.width,
            final(self)@.height == old(self)@.height,
            final(self)@ == old(self)@.put(x as int, y as int, r, g, b),
    {
        let (h, l) = color_to_16_bits(r, g, b);
        let b_off = self.buffer_offset(x, y);
        map_write(&mut self.map, b_off, h);
        map_write(&mut self.map, b_off + 1, l);
    }

    /// The colour that the pixel at `(x, y)` shows, or `None` where the
    /// display has no such pixel.
    pub fn get_px(&self, x: usize, y: usize) -> (shown: Option<(u8, u8, u8)>)
        requires
            self.wf(),
        ensures
            self@.contains(x as int, y as int) ==> shown == Some(
                self@.color_at(x as int, y as int),
            ),
            !self@.contains(x as int, y as int) ==> shown is None,
    {
        if x >= self.width || y >= self.height {
            return None;
        }
        let b_off = self.buffer_offset(x, y);
        let ch = map_read(&self.map, b_off);
        let cl = map_read(&self.map, b_off + 1);
        Some(color_from_16_bits(ch, cl))
    }

    /// Sets a specified pixel to a color, whatever the colour's alpha.
    ///
    /// A pixel outside the display is refused, and the colour is then not
    /// queried.
    pub fn set_px<C: Colorful>(&mut self, x: usize, y: usize, color: &mut C) -> (done: Result<
        (),
        ScreenError,
    >)
        requires
            old(self).wf(),
        ensures
            final(self).wf(),
            final(self)@.width == old(self)@.width,
            final(self)@.height == old(self)@.height,
            old(self)@.contains(x as int, y as int) ==> done is Ok && final(self)@ == old(
                self,
            )@.put(
                x as int,
                y as int,
                old(color).upcoming().0,
                old(color).upcoming().1,
                old(color).upcoming().2,
            ) && *final(color) == old(color).advanced(),
            !old(self)@.contains(x as int, y as int) ==> done == Err::<(), ScreenError>(
                ScreenError::OutOfBounds,
            ) && final(self)@ == old(self)@ && *final(color) == *old(color),
    {
        if x >= self.width || y >= self.height {
            return Err(ScreenError::OutOfBounds);
        }
        let (r, g, b, _a) = color.as_rgba();
        self.put_px(x, y, r, g, b);
        Ok(())
    }

    /// Updates a specified pixel's color by blending it with its new color:
    /// alpha times the new colour plus the rest times the colour shown.
    ///
    /// The colour is queried once. A pixel outside the display is refused,
    /// and the colour is then not queried.
    pub fn blend_px<C: Colorful>(&mut self, x: usize, y: usize, color: &mut C) -> (done: Result<
        (),
        ScreenError,
    >)
        requires
            old(self).wf(),
        ensures
            final(self).wf(),
            final(self)@.width == old(self)@.width,
            final(self)@.height == old(self)@.height,
            old(self)@.contains(x as int, y as int) ==> done is Ok && final(self)@ == old(
                self,
            )@.blend(x as int, y as int, old(color).upcoming()) && *final(color) == old(
                color,
            ).advanced(),
            !old(self)@.contains(x as int, y as int) ==> done == Err::<(), ScreenError>(
                ScreenError::OutOfBounds,
            ) && final(self)@ == old(self)@ && *final(color) == *old(color),
    {
        if x >= self.width || y >= self.height {
            return Err(ScreenError::OutOfBounds);
        }
        let (r, g, b, a) = color.as_rgba();

        // Short-cut if pixel is fully opaque. Hot path in images.
        if a == 255 {
            self.put_px(x, y, r, g, b);
            return Ok(());
        }
        // Short-cut if pixel is fully transparent.
        if a == 0 {
            return Ok(());
        }
        // Retrieve the current color.
        let b_off = self.buffer_offset(x, y);
        let ch = map_read(&self.map, b_off);
        let cl = map_read(&self.map, b_off + 1);
        let (cr, cg, cb) = color_from_16_bits(ch, cl);
        let (nr, ng, nb) = blend(r, g, b, a, cr, cg, cb);
        self.put_px(x, y, nr, ng, nb);
        Ok(())
    }

    /// Draws a line from `(x1, y1)` to `(x2, y2)`, both end points included.
    ///
    /// Where an end point is no pixel of the display the line is refused,
    /// nothing is drawn and the colour is not queried.
    pub fn draw_line<C: Colorful>(
        &mut self,
        x1: usize,
        y1: usize,
        x2: usize,
        y2: usize,
        color: &mut C,
    ) -> (done: Result<(), ScreenError>)
        requires
            old(self).wf(),
        ensures
            final(self).wf(),
            final(self)@.width == old(self)@.width,
            final(self)@.height == old(self)@.height,
            (old(self)@.contains(x1 as int, y1 as int) && old(self)@.contains(
                x2 as int,
                y2 as int,
            )) ==> done is Ok && (final(self)@, *final(color)) == old(self)@.paint(
                line_points(x1 as int, y1 as int, x2 as int, y2 as int),
                *old(color),
            ),
            !(old(self)@.contains(x1 as int, y1 as int) && old(self)@.contains(
                x2 as int,
                y2 as int,
            )) ==> done == Err::<(), ScreenError>(ScreenError::OutOfBounds) && final(self)@
                == old(self)@ && *final(color) == *old(color),
    {
        if x1 >= self.width || y1 >= self.height || x2 >= self.width || y2 >= self.height {
            return Err(ScreenError::OutOfBounds);
        }
        bresenham::draw_line(self, x1 as i32, y1 as i32, x2 as i32, y2 as i32, color)
    }

    /// The radius that a rectangle of `w` by `h` is drawn with: if there is
    /// not enough room to fully render the corner radius, the radius is
    /// lowered to a safe value.
    pub fn clamp_radius(w: usize, h: usize, radius: usize) -> (used: usize)
        ensures
            used == effective_radius(w as int, h as int, radius as int),
            2 * used <= w,
            2 * used <= h,
    {
        if h / 2 < radius || w / 2 < radius {
            (if h <= w {
                h
            } else {
                w
            }) / 3
        } else {
            radius
        }
    }

    /// Draws a rectangle with rounded corners and a border.
    ///
    /// The rectangle has `h` rows and reaches from column `x` to column
    /// `x + w`. One that starts in the first two columns or rows is not
    /// drawn. One that does not lie on the display is refused; nothing is
    /// then drawn and no colour queried.
    pub fn draw_rect<F: Colorful, B: Colorful>(
        &mut self,
        x: usize,
        y: usize,
        w: usize,
        h: usize,
        radius: usize,
        fill: &mut F,
        border: &mut B,
    ) -> (done: Result<(), ScreenError>)
        requires
            old(self).wf(),
        ensures
            final(self).wf(),
            final(self)@.width == old(self)@.width,
            final(self)@.height == old(self)@.height,
            (x < 2 || y < 2 || (x + w < old(self)@.width && y + h <= old(self)@.height))
                ==> done is Ok && (final(self)@, *final(fill), *final(border)) == rounded_rect(
                old(self)@,
                x as int,
                y as int,
                w as int,
                h as int,
                radius as int,
                *old(fill),
                *old(border),
            ),
            !(x < 2 || y < 2 || (x + w < old(self)@.width && y + h <= old(self)@.height))
                ==> done == Err::<(), ScreenError>(ScreenError::OutOfBounds) && final(self)@
                == old(self)@ && *final(fill) == *old(fill) && *final(border) == *old(border),
    {
        // A rectangle this close to the edge is not drawn.
        if x < 2 || y < 2 {
            return Ok(());
        }
        if w >= self.width || x >= self.width - w || h > self.height || y > self.height - h {
            return Err(ScreenError::OutOfBounds);
        }
        let ghost start: Surface = self@;
        let ghost fill0: F = *fill;
        let ghost border0: B = *border;
        let radius = Self::clamp_radius(w, h, radius);
        let m: usize = if radius <= MASK_SIZE {
            radius
        } else {
            MASK_SIZE
        };
        let mut j: usize = 0;
        while j < h
            invariant
                self.wf(),
                self@.width == start.width,
                self@.height == start.height,
                2 <= x,
                2 <= y,
                x + w < start.width,
                y + h <= start.height,
                0 <= j <= h,
                2 * radius <= w,
                2 * radius <= h,
                m <= MASK_SIZE,
                m <= radius,
                m == (if radius <= 8 {
                    radius
                } else {
                    8
                }),
                (self@, *fill, *border) == rect_rows(
                    start,
                    x as int,
                    y as int,
                    w as int,
                    h as int,
                    radius as int,
                    j as nat,
                    fill0,
                    border0,
                ),
            decreases h - j,
        {
            let top: usize = if j <= MASK_SIZE - 1 {
                j
            } else {
                MASK_SIZE - 1
            };
            let bottom: usize = if h - j - 1 <= MASK_SIZE - 1 {
                h - j - 1
            } else {
                MASK_SIZE - 1
            };
            let inset: usize = mask_at(m, top) as usize + mask_at(m, bottom) as usize;
            assert(inset == row_inset(h as int, radius as int, j as int));
            let sx_masked: usize = x + inset;
            let ex_masked: usize = x + w - inset;
            let ghost before: Surface = self@;
            let ghost fill_before: F = *fill;
            let ghost border_before: B = *border;
            let _ = self.draw_line(sx_masked, y + j, ex_masked, y + j, fill);

            // Draw border
            let _ = self.blend_px(sx_masked, y + j, border);
            let _ = self.blend_px(ex_masked, y + j, border);
            if j == 0 || j == h - 1 {
                let _ = self.draw_line(sx_masked, y + j, ex_masked, y + j, border);
            }
            assert((self@, *fill, *border) == rect_row(
                before,
                x as int,
                y as int,
                w as int,
                h as int,
                radius as int,
                j as int,
                fill_before,
                border_before,
            ));
            j += 1;
        }
        Ok(())
    }

    /// Fills the entire framebuffer with a single color, whatever its alpha.
    /// The colour is queried once.
    pub fn fill<C: Colorful>(&mut self, color: &mut C)
        requires
            old(self).wf(),
        ensures
            final(self).wf(),
            final(self)@.width == old(self)@.width,
            final(self)@.height == old(self)@.height,
            final(self)@ == old(self)@.filled(
                old(color).upcoming().0,
                old(color).upcoming().1,
                old(color).upcoming().2,
            ),
            *final(color) == old(color).advanced(),
    {
        let ghost start: Surface = self@;
        let (r, g, b, _a) = color.as_rgba();
        let (h, l) = color_to_16_bits(r, g, b);
        let len = map_len(&self.map);
        let mut i: usize = 0;
        while i < len
            invariant
                0 <= i <= len,
                len == start.bytes.len(),
                self@.width == start.width,
                self@.height == start.height,
                (h, l) == pack(r, g, b),
                self@.bytes == Seq::new(
                    start.bytes.len(),
                    |k: int|
                        if k < i {
                            if k % 2 == 0 {
                                h
                            } else {
                                l
                            }
                        } else {
                            start.bytes[k]
                        },
                ),
            decreases len - i,
        {
            map_write(
                &mut self.map,
                i,
                if i % 2 == 0 {
                    h
                } else {
                    l
                },
            );
            i += 1;
        }
        assert(self@.bytes =~= start.filled(r, g, b).bytes);
    }

    /// Copies the provided image data in `[r, g, b, a, r, g, b, a, ...]`
    /// format to the screen's color space, composited over `background`,
    /// whose alpha is ignored, for use with `blit_image`. The display itself
    /// is neither read nor changed.
    ///
    /// An image whose length is no multiple of 4 is refused, and the
    /// background is then not queried.
    pub fn render_image<C: Colorful>(&self, data: &[u8], background: &mut C) -> (out: Result<
        Vec<u8>,
        ScreenError,
    >)
        ensures
            data@.len() % 4 == 0 ==> out is Ok && out->Ok_0@ == rendered(
                data@,
                old(background).upcoming().0,
                old(background).upcoming().1,
                old(background).upcoming().2,
            ) && *final(background) == old(background).advanced(),
            data@.len() % 4 != 0 ==> out == Err::<Vec<u8>, ScreenError>(ScreenError::Malformed)
                && *final(background) == *old(background),
    {
        if data.len() % 4 != 0 {
            return Err(ScreenError::Malformed);
        }
        let (br, bg, bb, _) = background.as_rgba();
        render_rgba(data, br, bg, bb)
    }

    /// Whether `len` items are whole rows of `per_row` items each.
    pub open spec fn whole_rows(len: int, per_row: int) -> bool {
        per_row > 0 && len % per_row == 0
    }

    /// Draws the provided texture to the screen at the given coordinate and
    /// width, byte for byte and without blending. `data` is expected to be
    /// in the format of the buffer, as `render_image` makes it.
    ///
    /// Data that is not whole rows of `w` pixels is refused as malformed, and
    /// an image that does not lie on the display as out of bounds; either
    /// way nothing is drawn.
    pub fn blit_image(&mut self, x: usize, y: usize, w: usize, data: &[u8]) -> (done: Result<
        (),
        ScreenError,
    >)
        requires
            old(self).wf(),
        ensures
            final(self).wf(),
            final(self)@.width == old(self)@.width,
            final(self)@.height == old(self)@.height,
            done is Err ==> final(self)@ == old(self)@,
            !Self::whole_rows(data@.len() as int, w * 2) ==> done == Err::<(), ScreenError>(
                ScreenError::Malformed,
            ),
            (Self::whole_rows(data@.len() as int, w * 2) && !old(self)@.contains_rect(
                x as int,
                y as int,
                w as int,
                data@.len() as int / (w * 2),
            )) ==> done == Err::<(), ScreenError>(ScreenError::OutOfBounds),
            (Self::whole_rows(data@.len() as int, w * 2) && old(self)@.contains_rect(
                x as int,
                y as int,
                w as int,
                data@.len() as int / (w * 2),
            )) ==> done is Ok && final(self)@ == old(self)@.blit(
                x as int,
                y as int,
                w as int,
                data@,
                data@.len(),
            ),
    {
        if w == 0 {
            return Err(ScreenError::Malformed);
        }
        if w > self.width {
            // No row of this width fits; say which of the two faults it is.
            let len: usize = data.len();
            let whole: bool = if w <= usize::MAX / 2 {
                len % (w * 2) == 0
            } else {
                proof {
                    vstd::arithmetic::div_mod::lemma_small_mod(len as nat, (w * 2) as nat);
                }
                len == 0
            };
            return Err(
                if whole {
                    ScreenError::OutOfBounds
                } else {
                    ScreenError::Malformed
                },
            );
        }
        let per_row: usize = w * 2;
        if data.len() % per_row != 0 {
            return Err(ScreenError::Malformed);
        }
        let rows: usize = data.len() / per_row;
        proof {
            lemma_whole_rows(data@.len() as int, per_row as int);
        }
        if x > self.width - w || rows > self.height || y > self.height - rows {
            return Err(ScreenError::OutOfBounds);
        }
        let ghost start: Surface = self@;
        let mut idx: usize = 0;
        while idx < data.len()
            invariant
                self.wf(),
                start.wf(),
                self@.width == start.width,
                self@.height == start.height,
                self.width == start.width,
                0 < w,
                per_row == w * 2,
                data@.len() == rows * per_row,
                x + w <= start.width,
                y + rows <= start.height,
                0 <= idx <= data@.len(),
                self@ == start.blit(x as int, y as int, w as int, data@, idx as nat),
            decreases data@.len() - idx,
        {
            proof {
                lemma_cell(idx as int, per_row as int, rows as int);
                lemma_offset_in_bytes(
                    start,
                    x + (idx % per_row) as int / 2,
                    y + (idx / per_row) as int,
                );
                assert(start.width * 2 * (y + idx / per_row) == start.offset(
                    x + (idx % per_row) as int / 2,
                    y + (idx / per_row) as int,
                ) - (x + (idx % per_row) as int / 2) * 2);
                assert(0 <= (start.width * 2) * (y + idx / per_row)) by (nonlinear_arith)
                    requires
                        0 <= start.width,
                        0 <= y + idx / per_row,
                ;
            }
            let at: usize = (self.width * 2) * (y + idx / per_row) + x * 2 + idx % per_row;
            map_write(&mut self.map, at, data[idx]);
            idx += 1;
        }
        Ok(())
    }

    /// More expensive image copy call that blends all the pixels together.
    /// Needed for images with partial transparency that can't be pre-blended
    /// with a fixed color. `data` is RGBA, `w` pixels a row.
    ///
    /// Data that is not whole pixels in whole rows of `w` is refused as
    /// malformed, and an image that does not lie on the display as out of
    /// bounds; either way nothing is drawn.
    pub fn blend_image(&mut self, x: usize, y: usize, w: usize, data: &[u8]) -> (done: Result<
        (),
        ScreenError,
    >)
        requires
            old(self).wf(),
        ensures
            final(self).wf(),
            final(self)@.width == old(self)@.width,
            final(self)@.height == old(self)@.height,
            done is Err ==> final(self)@ == old(self)@,
            !(data@.len() % 4 == 0 && Self::whole_rows(data@.len() as int / 4, w as int))
                ==> done == Err::<(), ScreenError>(ScreenError::Malformed),
            (data@.len() % 4 == 0 && Self::whole_rows(data@.len() as int / 4, w as int) && !old(
                self,
            )@.contains_rect(x as int, y as int, w as int, data@.len() as int / 4 / (w as int)))
                ==> done == Err::<(), ScreenError>(ScreenError::OutOfBounds),
            (data@.len() % 4 == 0 && Self::whole_rows(data@.len() as int / 4, w as int) && old(
                self,
            )@.contains_rect(x as int, y as int, w as int, data@.len() as int / 4 / (w as int)))
                ==> done is Ok && final(self)@ == old(self)@.blend_image(
                x as int,
                y as int,
                w as int,
                data@,
                data@.len() / 4,
            ),
    {
        if data.len() % 4 != 0 || w == 0 {
            return Err(ScreenError::Malformed);
        }
        let n: usize = data.len() / 4;
        if n % w != 0 {
            return Err(ScreenError::Malformed);
        }
        let rows: usize = n / w;
        proof {
            lemma_whole_rows(n as int, w as int);
        }
        if w > self.width || x > self.width - w || rows > self.height || y > self.height - rows {
            return Err(ScreenError::OutOfBounds);
        }
        let ghost start: Surface = self@;
        let mut idx: usize = 0;
        while idx < n
            invariant
                self.wf(),
                self@.width == start.width,
                self@.height == start.height,
                0 < w,
                n == data@.len() / 4,
                data@.len() % 4 == 0,
                data@.len() <= usize::MAX,
                n == rows * w,
                x + w <= start.width,
                y + rows <= start.height,
                0 <= idx <= n,
                self@ == start.blend_image(x as int, y as int, w as int, data@, idx as nat),
            decreases n - idx,
        {
            proof {
                lemma_cell(idx as int, w as int, rows as int);
            }
            let mut rgba: [u8; 4] = [
                data[4 * idx],
                data[4 * idx + 1],
                data[4 * idx + 2],
                data[4 * idx + 3],
            ];
            let _ = self.blend_px(x + idx % w, y + (idx / w), &mut rgba);
            idx += 1;
        }
        Ok(())
    }
}

} // verus!
