//! What drawing leaves of each pixel of the surface: for a fill, for a copied
//! image, and for lines and rectangles in fixed, opaque colours.

use vstd::prelude::*;
use crate::bresenham::{lemma_horizontal_line, lemma_line_inside, line_points};
use crate::gfx::codec::{blended, pack, unpack};
use crate::gfx::color::{is_fixed, Colorful, RGBA};
use crate::gfx::corner::corner_inset;
use crate::gfx::surface::{
    effective_radius, lemma_blend_keeps_shape, lemma_cell, lemma_offset_in_bytes,
    lemma_paint_keeps_shape, lemma_whole_rows, rect_row, rect_rows, rounded_rect, row_inset,
    Surface,
};

verus! {

/// Whether a colour never changes and is fully opaque.
pub open spec fn is_solid<C: Colorful>(color: C) -> bool {
    is_fixed(color) && color.upcoming().3 == 255
}

/// The packed form of the colour that `color` returns next.
pub open spec fn packed<C: Colorful>(color: C) -> (u8, u8) {
    pack(color.upcoming().0, color.upcoming().1, color.upcoming().2)
}

/// The two bytes that the surface holds for the pixel `(x, y)`.
pub open spec fn packed_at(s: Surface, x: int, y: int) -> (u8, u8) {
    (s.bytes[s.offset(x, y)], s.bytes[s.offset(x, y) + 1])
}

/// Two different pixels of a display have no byte in common.
pub proof fn lemma_pixels_apart(s: Surface, x: int, y: int, px: int, py: int)
    requires
        s.contains(x, y),
        s.contains(px, py),
        (x, y) != (px, py),
    ensures
        s.offset(px, py) >= s.offset(x, y) + 2 || s.offset(px, py) + 2 <= s.offset(x, y),
{
    let w = s.width as int;
    if py > y {
        assert(w * 2 * py >= w * 2 * y + w * 2) by (nonlinear_arith)
            requires
                py >= y + 1,
                w >= 0,
        ;
    } else if py < y {
        assert(w * 2 * y >= w * 2 * py + w * 2) by (nonlinear_arith)
            requires
                y >= py + 1,
                w >= 0,
        ;
    }
}

/// Setting a pixel gives that pixel the packed colour and leaves every
/// other pixel as it was.
pub proof fn lemma_put_pixels(s: Surface, x: int, y: int, r: u8, g: u8, b: u8, px: int, py: int)
    requires
        s.wf(),
        s.contains(x, y),
        s.contains(px, py),
    ensures
        packed_at(s.put(x, y, r, g, b), px, py) == if (px, py) == (x, y) {
            pack(r, g, b)
        } else {
            packed_at(s, px, py)
        },
{
    lemma_offset_in_bytes(s, x, y);
    lemma_offset_in_bytes(s, px, py);
    if (px, py) != (x, y) {
        lemma_pixels_apart(s, x, y, px, py);
    }
}

/// After a fill every pixel of the display holds the packed colour.
pub proof fn lemma_filled_pixels(s: Surface, r: u8, g: u8, b: u8, px: int, py: int)
    requires
        s.wf(),
        s.contains(px, py),
    ensures
        s.filled(r, g, b).wf(),
        packed_at(s.filled(r, g, b), px, py) == pack(r, g, b),
{
    lemma_offset_in_bytes(s, px, py);
    let w = s.width as int;
    let q = w * py + px;
    assert(w * 2 * py + px * 2 == 2 * q) by (nonlinear_arith)
        requires
            q == w * py + px,
    ;
    assert((2 * q) % 2 == 0);
    assert((2 * q + 1) % 2 == 1);
}

/// Which byte of a packed image of `w` pixels a row, copied to `(x, y)`,
/// byte number `t` of the pixel `(px, py)` is taken from.
pub open spec fn blit_source(x: int, y: int, w: int, px: int, py: int, t: int) -> int {
    ((py - y) * w + (px - x)) * 2 + t
}

/// What copying the first `n` bytes of a packed image leaves of one byte of
/// one pixel: the image's byte for that place where it is among the `n`, and
/// what the surface held before everywhere else.
pub proof fn lemma_blit_bytes(
    s: Surface,
    x: int,
    y: int,
    w: int,
    data: Seq<u8>,
    n: nat,
    px: int,
    py: int,
    t: int,
)
    requires
        s.wf(),
        0 < w,
        data.len() as int % (w * 2) == 0,
        s.contains_rect(x, y, w, data.len() as int / (w * 2)),
        n <= data.len(),
        s.contains(px, py),
        0 <= t <= 1,
    ensures
        s.blit(x, y, w, data, n).bytes.len() == s.bytes.len(),
        s.blit(x, y, w, data, n).width == s.width,
        s.blit(x, y, w, data, n).height == s.height,
        s.blit(x, y, w, data, n).bytes[s.offset(px, py) + t] == if x <= px < x + w && y <= py
            && blit_source(x, y, w, px, py, t) < n {
            data[blit_source(x, y, w, px, py, t)]
        } else {
            s.bytes[s.offset(px, py) + t]
        },
    decreases n,
{
    if n > 0 {
        let i = n - 1;
        let per_row = w * 2;
        let rows = data.len() as int / per_row;
        lemma_blit_bytes(s, x, y, w, data, i as nat, px, py, t);
        lemma_whole_rows(data.len() as int, per_row);
        lemma_cell(i, per_row, rows);
        let row = i / per_row;
        let col = i % per_row;
        let qx = x + col / 2;
        let qy = y + row;
        let tt = col % 2;
        assert(s.contains(qx, qy));
        lemma_offset_in_bytes(s, qx, qy);
        lemma_offset_in_bytes(s, px, py);
        assert(s.blit_offset(x, y, w, i) == s.offset(qx, qy) + tt);
        if (px, py) != (qx, qy) {
            lemma_pixels_apart(s, qx, qy, px, py);
        }
        if x <= px < x + w && y <= py && blit_source(x, y, w, px, py, t) == i {
            // The byte that is copied now belongs to this very place.
            assert(i == (py - y) * per_row + ((px - x) * 2 + t)) by (nonlinear_arith)
                requires
                    i == ((py - y) * w + (px - x)) * 2 + t,
                    per_row == w * 2,
            ;
            vstd::arithmetic::div_mod::lemma_fundamental_div_mod_converse(
                i,
                per_row,
                py - y,
                (px - x) * 2 + t,
            );
            assert((px, py) == (qx, qy) && t == tt);
        }
        if (px, py) == (qx, qy) && t == tt {
            assert(blit_source(x, y, w, px, py, t) == i) by (nonlinear_arith)
                requires
                    i == row * per_row + col,
                    per_row == w * 2,
                    px - x == col / 2,
                    py - y == row,
                    t == col % 2,
                    col == 2 * (col / 2) + col % 2,
            ;
        }
    }
}

/// A copied image lies on the surface as it is: each pixel of the `w`
/// columns from `x` on and of the image's rows from `y` on holds the two
/// bytes that the image has for it, and every other pixel is as it was.
pub proof fn lemma_blit_pixels(
    s: Surface,
    x: int,
    y: int,
    w: int,
    data: Seq<u8>,
    px: int,
    py: int,
)
    requires
        s.wf(),
        0 < w,
        data.len() as int % (w * 2) == 0,
        s.contains_rect(x, y, w, data.len() as int / (w * 2)),
        s.contains(px, py),
    ensures
        s.blit(x, y, w, data, data.len()).wf(),
        packed_at(s.blit(x, y, w, data, data.len()), px, py) == if x <= px < x + w && y <= py < y
            + data.len() as int / (w * 2) {
            (
                data[blit_source(x, y, w, px, py, 0)],
                data[blit_source(x, y, w, px, py, 1)],
            )
        } else {
            packed_at(s, px, py)
        },
{
    let rows = data.len() as int / (w * 2);
    lemma_whole_rows(data.len() as int, w * 2);
    lemma_blit_bytes(s, x, y, w, data, data.len(), px, py, 0);
    lemma_blit_bytes(s, x, y, w, data, data.len(), px, py, 1);
    if x <= px < x + w && y <= py {
        if py < y + rows {
            assert(((py - y) * w + (px - x)) * 2 + 1 < rows * (w * 2)) by (nonlinear_arith)
                requires
                    0 <= py - y <= rows - 1,
                    0 <= px - x < w,
            ;
        } else {
            assert(((py - y) * w + (px - x)) * 2 >= rows * (w * 2)) by (nonlinear_arith)
                requires
                    py - y >= rows,
                    0 <= px - x < w,
                    rows >= 0,
            ;
        }
    }
}

/// What a pixel that holds the two bytes `before` holds after `rgba` was
/// blended into it.
pub open spec fn blended_pixel(before: (u8, u8), rgba: RGBA) -> (u8, u8) {
    if rgba.3 == 255 {
        pack(rgba.0, rgba.1, rgba.2)
    } else if rgba.3 == 0 {
        before
    } else {
        let c = unpack(before.0, before.1);
        let n = blended(rgba.0, rgba.1, rgba.2, rgba.3, c.0, c.1, c.2);
        pack(n.0, n.1, n.2)
    }
}

/// Blending a colour into a pixel changes that pixel, by what it held and
/// the colour alone, and leaves every other pixel as it was.
pub proof fn lemma_blend_pixels(s: Surface, x: int, y: int, rgba: RGBA, px: int, py: int)
    requires
        s.wf(),
        s.contains(x, y),
        s.contains(px, py),
    ensures
        s.blend(x, y, rgba).wf(),
        s.blend(x, y, rgba).width == s.width,
        s.blend(x, y, rgba).height == s.height,
        packed_at(s.blend(x, y, rgba), px, py) == if (px, py) == (x, y) {
            blended_pixel(packed_at(s, x, y), rgba)
        } else {
            packed_at(s, px, py)
        },
{
    lemma_blend_keeps_shape(s, x, y, rgba);
    let c = s.color_at(x, y);
    let n = blended(rgba.0, rgba.1, rgba.2, rgba.3, c.0, c.1, c.2);
    lemma_put_pixels(s, x, y, rgba.0, rgba.1, rgba.2, px, py);
    lemma_put_pixels(s, x, y, n.0, n.1, n.2, px, py);
}

/// The colour and alpha of pixel number `p` of an image in
/// `[r, g, b, a, r, g, b, a, ...]` form.
pub open spec fn rgba_at(data: Seq<u8>, p: int) -> RGBA {
    (data[4 * p], data[4 * p + 1], data[4 * p + 2], data[4 * p + 3])
}

/// What blending the first `n` pixels of an image leaves of one pixel of the
/// surface: where the image has one of those `n` pixels for it, what the
/// pixel held with that one blended into it, and what it held everywhere
/// else.
pub proof fn lemma_blend_image_pixels(
    s: Surface,
    x: int,
    y: int,
    w: int,
    data: Seq<u8>,
    n: nat,
    px: int,
    py: int,
)
    requires
        s.wf(),
        0 < w,
        data.len() % 4 == 0,
        (data.len() as int / 4) % w == 0,
        s.contains_rect(x, y, w, data.len() as int / 4 / w),
        n <= data.len() / 4,
        s.contains(px, py),
    ensures
        s.blend_image(x, y, w, data, n).wf(),
        s.blend_image(x, y, w, data, n).width == s.width,
        s.blend_image(x, y, w, data, n).height == s.height,
        packed_at(s.blend_image(x, y, w, data, n), px, py) == if x <= px < x + w && y <= py && (py
            - y) * w + (px - x) < n {
            blended_pixel(packed_at(s, px, py), rgba_at(data, (py - y) * w + (px - x)))
        } else {
            packed_at(s, px, py)
        },
    decreases n,
{
    if n > 0 {
        let p = n - 1;
        let rows = data.len() as int / 4 / w;
        lemma_blend_image_pixels(s, x, y, w, data, p as nat, px, py);
        lemma_whole_rows(data.len() as int / 4, w);
        lemma_cell(p, w, rows);
        let qx = x + p % w;
        let qy = y + p / w;
        let before = s.blend_image(x, y, w, data, p as nat);
        assert(s.contains(qx, qy));
        lemma_blend_pixels(before, qx, qy, rgba_at(data, p), px, py);
        if x <= px < x + w && y <= py && (py - y) * w + (px - x) == p {
            vstd::arithmetic::div_mod::lemma_fundamental_div_mod_converse(p, w, py - y, px - x);
            assert((px, py) == (qx, qy));
        }
    }
}

/// Painting with a fixed, opaque colour gives each of the points that
/// colour, leaves every other pixel as it was, and leaves the colour as it
/// was.
pub proof fn lemma_paint_solid<C: Colorful>(
    s: Surface,
    points: Seq<(int, int)>,
    color: C,
    px: int,
    py: int,
)
    requires
        s.wf(),
        s.contains_all(points),
        s.contains(px, py),
        is_solid(color),
    ensures
        s.paint(points, color).1 == color,
        packed_at(s.paint(points, color).0, px, py) == if points.contains((px, py)) {
            packed(color)
        } else {
            packed_at(s, px, py)
        },
    decreases points.len(),
{
    if points.len() > 0 {
        let front = points.drop_last();
        let last = points.last();
        assert(last == points[points.len() - 1]);
        assert forall|i: int| 0 <= i < front.len() implies s.contains(
            #[trigger] front[i].0,
            front[i].1,
        ) by {
            assert(front[i] == points[i]);
        }
        lemma_paint_solid(s, front, color, px, py);
        lemma_paint_keeps_shape(s, front, color);
        let before = s.paint(front, color).0;
        lemma_put_pixels(
            before,
            last.0,
            last.1,
            color.upcoming().0,
            color.upcoming().1,
            color.upcoming().2,
            px,
            py,
        );
        if front.contains((px, py)) {
            let i = choose|i: int| 0 <= i < front.len() && front[i] == (px, py);
            assert(points[i] == (px, py));
        }
        if points.contains((px, py)) && last != (px, py) {
            let i = choose|i: int| 0 <= i < points.len() && points[i] == (px, py);
            assert(front[i] == (px, py));
        }
    }
}

/// A horizontal line painted in a fixed, opaque colour gives that colour to
/// the pixels of its row between its two ends, both included, and leaves
/// every other pixel and the colour as they were.
pub proof fn lemma_row_solid<C: Colorful>(
    s: Surface,
    xa: int,
    xb: int,
    y: int,
    color: C,
    px: int,
    py: int,
)
    requires
        s.wf(),
        s.contains(xa, y),
        s.contains(xb, y),
        s.contains(px, py),
        is_solid(color),
    ensures
        s.paint(line_points(xa, y, xb, y), color).0.wf(),
        s.paint(line_points(xa, y, xb, y), color).0.width == s.width,
        s.paint(line_points(xa, y, xb, y), color).0.height == s.height,
        s.paint(line_points(xa, y, xb, y), color).1 == color,
        packed_at(s.paint(line_points(xa, y, xb, y), color).0, px, py) == if py == y && (xa <= px
            <= xb || xb <= px <= xa) {
            packed(color)
        } else {
            packed_at(s, px, py)
        },
{
    let row = line_points(xa, y, xb, y);
    lemma_horizontal_line(xa, xb, y);
    lemma_line_inside(s, xa, y, xb, y);
    lemma_paint_solid(s, row, color, px, py);
    lemma_paint_keeps_shape(s, row, color);
    if py == y && (xa <= px <= xb || xb <= px <= xa) {
        let left = if xa <= xb {
            xa
        } else {
            xb
        };
        assert(row[px - left] == (px, py));
    }
}

/// A fixed, opaque colour blended into a pixel gives that pixel the colour
/// and leaves every other pixel as it was.
pub proof fn lemma_blend_solid<C: Colorful>(s: Surface, x: int, y: int, color: C, px: int, py: int)
    requires
        s.wf(),
        s.contains(x, y),
        s.contains(px, py),
        is_solid(color),
    ensures
        s.blend(x, y, color.upcoming()).wf(),
        s.blend(x, y, color.upcoming()).width == s.width,
        s.blend(x, y, color.upcoming()).height == s.height,
        packed_at(s.blend(x, y, color.upcoming()), px, py) == if (px, py) == (x, y) {
            packed(color)
        } else {
            packed_at(s, px, py)
        },
{
    lemma_blend_keeps_shape(s, x, y, color.upcoming());
    lemma_put_pixels(
        s,
        x,
        y,
        color.upcoming().0,
        color.upcoming().1,
        color.upcoming().2,
        px,
        py,
    );
}

/// No row of a corner stands in further than the corner's radius.
pub proof fn lemma_corner_inset_bound(radius: int, row: int)
    requires
        0 <= radius <= 8,
        0 <= row < 8,
    ensures
        0 <= corner_inset(radius, row) <= radius,
        corner_inset(0, row) == 0,
        corner_inset(radius, 0) == radius,
{
}

/// A row of a rectangle whose corners fit beside each other stands in by no
/// more than the rectangle is wide, and a rectangle with square corners does
/// not stand in at all.
pub proof fn lemma_row_inset_bound(w: int, h: int, radius: int, j: int)
    requires
        0 <= radius,
        2 * radius <= w,
        2 * radius <= h,
        0 <= j < h,
    ensures
        0 <= row_inset(h, radius, j) <= w,
        radius == 0 ==> row_inset(h, radius, j) == 0,
{
    let m = if radius <= 8 {
        radius
    } else {
        8
    };
    let top = if j <= 7 {
        j
    } else {
        7
    };
    let bottom = if h - j - 1 <= 7 {
        h - j - 1
    } else {
        7
    };
    lemma_corner_inset_bound(m, top);
    lemma_corner_inset_bound(m, bottom);
}

/// The radius that a rectangle is drawn with lets two corners fit beside and
/// above each other.
pub proof fn lemma_effective_radius_fits(w: int, h: int, radius: int)
    requires
        0 <= w,
        0 <= h,
        0 <= radius,
    ensures
        0 <= effective_radius(w, h, radius),
        2 * effective_radius(w, h, radius) <= w,
        2 * effective_radius(w, h, radius) <= h,
        (2 * radius <= w && 2 * radius <= h) ==> effective_radius(w, h, radius) == radius,
{
}

/// Whether column `px` lies in a row that reaches from column `x` to column
/// `x + w` and stands in by `inset` on both sides. Where the two insets
/// cross, the row is what lies between them.
pub open spec fn in_row(x: int, w: int, inset: int, px: int) -> bool {
    (x + inset <= px <= x + w - inset) || (x + w - inset <= px <= x + inset)
}

/// Whether column `px` is one of the two ends of such a row.
pub open spec fn at_row_end(x: int, w: int, inset: int, px: int) -> bool {
    px == x + inset || px == x + w - inset
}

/// What a rectangle of `h` rows from `(x, y)` down, which reaches from column
/// `x` to column `x + w` and has corners of radius `radius`, makes of the
/// pixel `(px, py)` where that pixel lies in one of its first `n` rows: the
/// border colour at the two ends of each row and all over the first and the
/// last row, the fill colour between.
pub open spec fn rect_pixel(
    x: int,
    y: int,
    w: int,
    h: int,
    radius: int,
    n: int,
    px: int,
    py: int,
    fill: (u8, u8),
    border: (u8, u8),
    before: (u8, u8),
) -> (u8, u8) {
    if y <= py < y + n && in_row(x, w, row_inset(h, radius, py - y), px) {
        if at_row_end(x, w, row_inset(h, radius, py - y), px) || py == y || py == y + h - 1 {
            border
        } else {
            fill
        }
    } else {
        before
    }
}

/// What row `j` of a rectangle, drawn in fixed opaque colours, leaves of one
/// pixel.
pub proof fn lemma_rect_row<F: Colorful, B: Colorful>(
    s: Surface,
    x: int,
    y: int,
    w: int,
    h: int,
    radius: int,
    j: int,
    fill: F,
    border: B,
    px: int,
    py: int,
)
    requires
        s.wf(),
        0 <= x,
        0 <= y,
        0 <= j < h,
        0 <= radius,
        2 * radius <= w,
        2 * radius <= h,
        x + w < s.width,
        y + h <= s.height,
        is_solid(fill),
        is_solid(border),
        s.contains(px, py),
    ensures
        rect_row(s, x, y, w, h, radius, j, fill, border).0.wf(),
        rect_row(s, x, y, w, h, radius, j, fill, border).0.width == s.width,
        rect_row(s, x, y, w, h, radius, j, fill, border).0.height == s.height,
        rect_row(s, x, y, w, h, radius, j, fill, border).1 == fill,
        rect_row(s, x, y, w, h, radius, j, fill, border).2 == border,
        packed_at(rect_row(s, x, y, w, h, radius, j, fill, border).0, px, py) == if py == y + j
            && in_row(x, w, row_inset(h, radius, j), px) {
            if at_row_end(x, w, row_inset(h, radius, j), px) || j == 0 || j == h - 1 {
                packed(border)
            } else {
                packed(fill)
            }
        } else {
            packed_at(s, px, py)
        },
{
    lemma_row_inset_bound(w, h, radius, j);
    let sx = x + row_inset(h, radius, j);
    let ex = x + w - row_inset(h, radius, j);
    let row = line_points(sx, y + j, ex, y + j);
    lemma_row_solid(s, sx, ex, y + j, fill, px, py);
    let s1 = s.paint(row, fill).0;
    lemma_blend_solid(s1, sx, y + j, border, px, py);
    let s2 = s1.blend(sx, y + j, border.upcoming());
    lemma_blend_solid(s2, ex, y + j, border, px, py);
    let s3 = s2.blend(ex, y + j, border.upcoming());
    lemma_row_solid(s3, sx, ex, y + j, border, px, py);
}

/// What the first `n` rows of a rectangle, drawn in fixed opaque colours,
/// leave of one pixel.
pub proof fn lemma_rect_rows<F: Colorful, B: Colorful>(
    s: Surface,
    x: int,
    y: int,
    w: int,
    h: int,
    radius: int,
    n: nat,
    fill: F,
    border: B,
    px: int,
    py: int,
)
    requires
        s.wf(),
        0 <= x,
        0 <= y,
        n <= h,
        0 <= radius,
        2 * radius <= w,
        2 * radius <= h,
        x + w < s.width,
        y + h <= s.height,
        is_solid(fill),
        is_solid(border),
        s.contains(px, py),
    ensures
        rect_rows(s, x, y, w, h, radius, n, fill, border).0.wf(),
        rect_rows(s, x, y, w, h, radius, n, fill, border).0.width == s.width,
        rect_rows(s, x, y, w, h, radius, n, fill, border).0.height == s.height,
        rect_rows(s, x, y, w, h, radius, n, fill, border).1 == fill,
        rect_rows(s, x, y, w, h, radius, n, fill, border).2 == border,
        packed_at(rect_rows(s, x, y, w, h, radius, n, fill, border).0, px, py) == rect_pixel(
            x,
            y,
            w,
            h,
            radius,
            n as int,
            px,
            py,
            packed(fill),
            packed(border),
            packed_at(s, px, py),
        ),
    decreases n,
{
    if n > 0 {
        let j = n - 1;
        lemma_rect_rows(s, x, y, w, h, radius, j as nat, fill, border, px, py);
        let s0 = rect_rows(s, x, y, w, h, radius, j as nat, fill, border).0;
        lemma_rect_row(s0, x, y, w, h, radius, j, fill, border, px, py);
    }
}

/// A rectangle drawn in fixed opaque colours: each of its `h` rows from
/// `(x, y)` down reaches from column `x` to column `x + w`, less on both
/// sides what the corner mask gives for the row and the radius that the
/// rectangle is drawn with; the two ends of each row and all of the first
/// and the last row hold the border colour, what lies between holds the fill
/// colour, and every pixel beside is as it was.
pub proof fn lemma_rounded_rect_pixels<F: Colorful, B: Colorful>(
    s: Surface,
    x: int,
    y: int,
    w: int,
    h: int,
    radius: int,
    fill: F,
    border: B,
    px: int,
    py: int,
)
    requires
        s.wf(),
        2 <= x,
        2 <= y,
        0 <= w,
        0 <= h,
        0 <= radius,
        x + w < s.width,
        y + h <= s.height,
        is_solid(fill),
        is_solid(border),
        s.contains(px, py),
    ensures
        packed_at(rounded_rect(s, x, y, w, h, radius, fill, border).0, px, py) == rect_pixel(
            x,
            y,
            w,
            h,
            effective_radius(w, h, radius),
            h,
            px,
            py,
            packed(fill),
            packed(border),
            packed_at(s, px, py),
        ),
{
    lemma_effective_radius_fits(w, h, radius);
    lemma_rect_rows(
        s,
        x,
        y,
        w,
        h,
        effective_radius(w, h, radius),
        h as nat,
        fill,
        border,
        px,
        py,
    );
}

/// A rectangle with radius 0, drawn in fixed opaque colours, is a perfect
/// axis-aligned rectangle: its `h` rows from `(x, y)` down hold the border
/// colour in their first and last column, `x` and `x + w`, and all over the
/// first and the last row, and the fill colour everywhere between; every
/// pixel beside it is as it was.
pub proof fn lemma_square_rect<F: Colorful, B: Colorful>(
    s: Surface,
    x: int,
    y: int,
    w: int,
    h: int,
    fill: F,
    border: B,
    px: int,
    py: int,
)
    requires
        s.wf(),
        2 <= x,
        2 <= y,
        0 <= w,
        0 <= h,
        x + w < s.width,
        y + h <= s.height,
        is_solid(fill),
        is_solid(border),
        s.contains(px, py),
    ensures
        packed_at(rounded_rect(s, x, y, w, h, 0, fill, border).0, px, py) == if x <= px <= x + w
            && y <= py < y + h {
            if px == x || px == x + w || py == y || py == y + h - 1 {
                packed(border)
            } else {
                packed(fill)
            }
        } else {
            packed_at(s, px, py)
        },
{
    lemma_rounded_rect_pixels(s, x, y, w, h, 0, fill, border, px, py);
    lemma_effective_radius_fits(w, h, 0);
    if y <= py < y + h {
        lemma_row_inset_bound(w, h, 0, py - y);
    }
}

} // verus!
