//! The mathematical model of a display surface: its size and its bytes, and
//! what each drawing operation makes of them.

use vstd::prelude::*;
use crate::gfx::codec::{blended, pack_high, pack_low, unpack};
use crate::bresenham::line_points;
use crate::gfx::color::{after_queries, nth_color, Colorful, RGBA};
use crate::gfx::corner::corner_inset;

verus! {

/// A display of `width` by `height` pixels and the bytes that it shows: two
/// bytes per pixel, row after row, without padding.
pub struct Surface {
    pub width: nat,
    pub height: nat,
    pub bytes: Seq<u8>,
}

impl Surface {
    /// The bytes are exactly those of `width * height` packed pixels.
    pub open spec fn wf(self) -> bool {
        self.bytes.len() == self.width * self.height * 2
    }

    /// Whether `(x, y)` is a pixel of the display.
    pub open spec fn contains(self, x: int, y: int) -> bool {
        0 <= x < self.width && 0 <= y < self.height
    }

    /// Whether the display holds the `w` columns from `x` on and the `h` rows
    /// from `y` on.
    pub open spec fn contains_rect(self, x: int, y: int, w: int, h: int) -> bool {
        0 <= x && 0 <= y && 0 <= w && 0 <= h && x + w <= self.width && y + h <= self.height
    }

    /// The index of the first of the two bytes of the pixel `(x, y)`.
    pub open spec fn offset(self, x: int, y: int) -> int {
        (self.width * 2 * y) + x * 2
    }

    /// The colour that the pixel `(x, y)` shows.
    pub open spec fn color_at(self, x: int, y: int) -> (u8, u8, u8) {
        unpack(self.bytes[self.offset(x, y)], self.bytes[self.offset(x, y) + 1])
    }

    /// The surface with the pixel `(x, y)` overwritten by the packed form of
    /// `(r, g, b)`.
    pub open spec fn put(self, x: int, y: int, r: u8, g: u8, b: u8) -> Surface {
        Surface {
            bytes: self.bytes.update(self.offset(x, y), pack_high(g, b)).update(
                self.offset(x, y) + 1,
                pack_low(r, g),
            ),
            ..self
        }
    }

    /// The surface with `rgba` blended into the pixel `(x, y)`: an opaque
    /// colour replaces the pixel, a fully transparent one leaves it, and any
    /// other is composited over the colour that the pixel shows.
    pub open spec fn blend(self, x: int, y: int, rgba: RGBA) -> Surface {
        if rgba.3 == 255 {
            self.put(x, y, rgba.0, rgba.1, rgba.2)
        } else if rgba.3 == 0 {
            self
        } else {
            let c = self.color_at(x, y);
            let n = blended(rgba.0, rgba.1, rgba.2, rgba.3, c.0, c.1, c.2);
            self.put(x, y, n.0, n.1, n.2)
        }
    }

    /// The surface with every pixel overwritten by the packed form of
    /// `(r, g, b)`.
    pub open spec fn filled(self, r: u8, g: u8, b: u8) -> Surface {
        Surface {
            bytes: Seq::new(
                self.bytes.len(),
                |k: int|
                    if k % 2 == 0 {
                        pack_high(g, b)
                    } else {
                        pack_low(r, g)
                    },
            ),
            ..self
        }
    }

    /// Where byte number `idx` of a packed image of `w` pixels a row goes
    /// when the image is copied to `(x, y)`.
    pub open spec fn blit_offset(self, x: int, y: int, w: int, idx: int) -> int {
        self.offset(x, y + idx / (w * 2)) + idx % (w * 2)
    }

    /// The surface after the first `n` bytes of the packed image `data`, of
    /// `w` pixels a row, were copied to `(x, y)`.
    pub open spec fn blit(self, x: int, y: int, w: int, data: Seq<u8>, n: nat) -> Surface
        decreases n,
    {
        if n == 0 {
            self
        } else {
            let s = self.blit(x, y, w, data, (n - 1) as nat);
            Surface { bytes: s.bytes.update(self.blit_offset(x, y, w, n - 1), data[n - 1]), ..s }
        }
    }

    /// The surface after the first `n` pixels of the RGBA image `data`, of
    /// `w` pixels a row, were blended into it at `(x, y)`.
    pub open spec fn blend_image(self, x: int, y: int, w: int, data: Seq<u8>, n: nat) -> Surface
        decreases n,
    {
        if n == 0 {
            self
        } else {
            let p = n - 1;
            self.blend_image(x, y, w, data, p as nat).blend(
                x + p % w,
                y + p / w,
                (data[4 * p], data[4 * p + 1], data[4 * p + 2], data[4 * p + 3]),
            )
        }
    }

    /// Whether every one of `points` is a pixel of the display.
    pub open spec fn contains_all(self, points: Seq<(int, int)>) -> bool {
        forall|i: int| 0 <= i < points.len() ==> self.contains(#[trigger] points[i].0, points[i].1)
    }

    /// The surface after `color` was blended into each of `points` in turn,
    /// with one query of the colour per point, and the colour as those queries
    /// leave it.
    pub open spec fn paint<C: Colorful>(self, points: Seq<(int, int)>, color: C) -> (Surface, C)
        decreases points.len(),
    {
        if points.len() == 0 {
            (self, color)
        } else {
            let (before, c) = self.paint(points.drop_last(), color);
            (before.blend(points.last().0, points.last().1, c.upcoming()), c.advanced())
        }
    }
}

/// The corner radius that a rectangle of `w` by `h` is drawn with where
/// `radius` was asked for: the radius asked for where two corners fit beside
/// and above each other, a third of the shorter side where they do not.
pub open spec fn effective_radius(w: int, h: int, radius: int) -> int {
    if h < radius * 2 || w < radius * 2 {
        (if h <= w {
            h
        } else {
            w
        }) / 3
    } else {
        radius
    }
}

/// How far row `j` of a rectangle of `h` rows stands in from each side, for
/// corners of radius `radius`: the inset of the row counted from the top plus
/// that of the row counted from the bottom, each row from the eighth on
/// counting as the eighth, and each radius above 8 as 8.
pub open spec fn row_inset(h: int, radius: int, j: int) -> int {
    let m = if radius <= 8 {
        radius
    } else {
        8
    };
    let top = if j <= 7 {
        j
    } else {
        7
    };
    let bottom = if h - j - 1 <= 7 {
        h - j - 1
    } else {
        7
    };
    corner_inset(m, top) + corner_inset(m, bottom)
}

/// The surface and the two colours after row `j` of a rectangle was drawn:
/// a line in the fill colour between the row's two inset ends, the border
/// colour blended into both ends, and on the first and the last row a line
/// in the border colour over the whole row.
pub open spec fn rect_row<F: Colorful, B: Colorful>(
    s: Surface,
    x: int,
    y: int,
    w: int,
    h: int,
    radius: int,
    j: int,
    fill: F,
    border: B,
) -> (Surface, F, B) {
    let sx = x + row_inset(h, radius, j);
    let ex = x + w - row_inset(h, radius, j);
    let (s1, f1) = s.paint(line_points(sx, y + j, ex, y + j), fill);
    let s2 = s1.blend(sx, y + j, border.upcoming());
    let s3 = s2.blend(ex, y + j, border.advanced().upcoming());
    let b2 = border.advanced().advanced();
    if j == 0 || j == h - 1 {
        let (s4, b3) = s3.paint(line_points(sx, y + j, ex, y + j), b2);
        (s4, f1, b3)
    } else {
        (s3, f1, b2)
    }
}

/// The surface and the two colours after the first `n` rows of a rectangle
/// were drawn, from the top down.
pub open spec fn rect_rows<F: Colorful, B: Colorful>(
    s: Surface,
    x: int,
    y: int,
    w: int,
    h: int,
    radius: int,
    n: nat,
    fill: F,
    border: B,
) -> (Surface, F, B)
    decreases n,
{
    if n == 0 {
        (s, fill, border)
    } else {
        let (s1, f1, b1) = rect_rows(s, x, y, w, h, radius, (n - 1) as nat, fill, border);
        rect_row(s1, x, y, w, h, radius, n - 1, f1, b1)
    }
}

/// The surface and the two colours after a rectangle with rounded corners
/// was drawn: `h` rows from `(x, y)` down, each from column `x` to column
/// `x + w` less the row's inset on both sides. A rectangle that starts in the
/// first two columns or rows is not drawn.
pub open spec fn rounded_rect<F: Colorful, B: Colorful>(
    s: Surface,
    x: int,
    y: int,
    w: int,
    h: int,
    radius: int,
    fill: F,
    border: B,
) -> (Surface, F, B) {
    if x < 2 || y < 2 {
        (s, fill, border)
    } else {
        rect_rows(s, x, y, w, h, effective_radius(w, h, radius), h as nat, fill, border)
    }
}

/// Items that come in whole rows are as many as the rows times the items of
/// a row.
pub proof fn lemma_whole_rows(len: int, per_row: int)
    requires
        0 < per_row,
        0 <= len,
        len % per_row == 0,
    ensures
        len == (len / per_row) * per_row,
        0 <= len / per_row,
{
    vstd::arithmetic::div_mod::lemma_fundamental_div_mod(len, per_row);
    assert(per_row * (len / per_row) == (len / per_row) * per_row) by (nonlinear_arith);
    assert(0 <= len / per_row) by (nonlinear_arith)
        requires
            0 <= len,
            0 < per_row,
    ;
}

/// Item number `idx` of `rows` rows of `per_row` items lies in one of the
/// rows and in one of its places.
pub proof fn lemma_cell(idx: int, per_row: int, rows: int)
    requires
        0 < per_row,
        0 <= idx < rows * per_row,
    ensures
        0 <= idx / per_row < rows,
        0 <= idx % per_row < per_row,
        idx == (idx / per_row) * per_row + idx % per_row,
{
    vstd::arithmetic::div_mod::lemma_fundamental_div_mod(idx, per_row);
    let q = idx / per_row;
    assert(0 <= q < rows) by (nonlinear_arith)
        requires
            idx == per_row * q + idx % per_row,
            0 <= idx % per_row < per_row,
            0 <= idx < rows * per_row,
            0 < per_row,
    ;
    assert(per_row * q == q * per_row) by (nonlinear_arith);
}

/// A pixel of the display has both its bytes inside the buffer.
pub proof fn lemma_offset_in_bytes(s: Surface, x: int, y: int)
    requires
        s.wf(),
        s.contains(x, y),
    ensures
        0 <= s.offset(x, y),
        s.offset(x, y) + 1 < s.bytes.len(),
{
    assert(s.width * 2 * y + x * 2 + 2 <= s.width * s.height * 2) by (nonlinear_arith)
        requires
            0 <= x < s.width,
            0 <= y < s.height,
    ;
    assert(0 <= s.width * 2 * y) by (nonlinear_arith)
        requires
            0 <= y,
    ;
}

/// Writing or blending a pixel of the display keeps its size and the number of
/// its bytes.
pub proof fn lemma_blend_keeps_shape(s: Surface, x: int, y: int, rgba: RGBA)
    requires
        s.wf(),
        s.contains(x, y),
    ensures
        s.blend(x, y, rgba).wf(),
        s.blend(x, y, rgba).width == s.width,
        s.blend(x, y, rgba).height == s.height,
        s.put(x, y, rgba.0, rgba.1, rgba.2).wf(),
{
    lemma_offset_in_bytes(s, x, y);
}

/// Painting pixels of the display keeps its size and the number of its bytes.
pub proof fn lemma_paint_keeps_shape<C: Colorful>(s: Surface, points: Seq<(int, int)>, color: C)
    requires
        s.wf(),
        s.contains_all(points),
    ensures
        s.paint(points, color).0.wf(),
        s.paint(points, color).0.width == s.width,
        s.paint(points, color).0.height == s.height,
    decreases points.len(),
{
    if points.len() > 0 {
        let front = points.drop_last();
        assert forall|i: int| 0 <= i < front.len() implies s.contains(
            #[trigger] front[i].0,
            front[i].1,
        ) by {
            assert(front[i] == points[i]);
        }
        lemma_paint_keeps_shape(s, front, color);
        let (before, c) = s.paint(front, color);
        assert(points.last() == points[points.len() - 1]);
        lemma_blend_keeps_shape(before, points.last().0, points.last().1, c.upcoming());
    }
}

/// Painting one more point is painting the others first and then blending
/// that point with the colour's next query.
pub proof fn lemma_paint_push<C: Colorful>(s: Surface, points: Seq<(int, int)>, p: (int, int), color: C)
    ensures
        s.paint(points.push(p), color) == (
            s.paint(points, color).0.blend(p.0, p.1, s.paint(points, color).1.upcoming()),
            s.paint(points, color).1.advanced(),
        ),
{
    assert(points.push(p).drop_last() == points);
}

/// Blending a fully opaque colour into a pixel is setting the pixel to that
/// colour.
pub proof fn lemma_opaque_blend_is_put(s: Surface, x: int, y: int, rgba: RGBA)
    requires
        rgba.3 == 255,
    ensures
        s.blend(x, y, rgba) == s.put(x, y, rgba.0, rgba.1, rgba.2),
{
}

/// Blending a fully transparent colour into a pixel changes nothing.
pub proof fn lemma_transparent_blend_is_nothing(s: Surface, x: int, y: int, rgba: RGBA)
    requires
        rgba.3 == 0,
    ensures
        s.blend(x, y, rgba) == s,
{
}

/// Painting a single point is blending the colour's next query into it.
pub proof fn lemma_paint_one<C: Colorful>(s: Surface, p: (int, int), color: C)
    ensures
        s.paint(seq![p], color) == (s.blend(p.0, p.1, color.upcoming()), color.advanced()),
{
    let points = seq![p];
    assert(points.drop_last() =~= Seq::<(int, int)>::empty());
    assert(points.last() == p);
    assert(s.paint(points.drop_last(), color) == (s, color));
}

/// Painting queries the colour once for each point: after `n` points the
/// colour is as `n` queries leave it, and one more point is blended with the
/// colour of query number `n`.
pub proof fn lemma_paint_queries<C: Colorful>(s: Surface, points: Seq<(int, int)>, color: C)
    ensures
        s.paint(points, color).1 == after_queries(color, points.len()),
        forall|p: (int, int)|
            s.paint(points.push(p), color).0 == #[trigger] s.paint(points, color).0.blend(
                p.0,
                p.1,
                nth_color(color, points.len()),
            ),
    decreases points.len(),
{
    if points.len() > 0 {
        lemma_paint_queries(s, points.drop_last(), color);
    }
    assert forall|p: (int, int)|
        s.paint(points.push(p), color).0 == #[trigger] s.paint(points, color).0.blend(
            p.0,
            p.1,
            nth_color(color, points.len()),
        ) by {
        lemma_paint_push(s, points, p, color);
    }
}

} // verus!
