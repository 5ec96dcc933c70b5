//! Line rasterisation with an integer error accumulator.
//!
//! A line is walked along its longer side, the major axis, one pixel per
//! step and both end points included. After `i` steps along a major side of
//! `major` pixels, a line whose minor side is `minor` pixels long has moved
//! `(2 * i * minor + major - 1) / (2 * major)` pixels along the minor axis:
//! the exact position rounded to the nearest pixel, a tie towards the start.

use vstd::prelude::*;
use vstd::arithmetic::div_mod::{lemma_fundamental_div_mod, lemma_fundamental_div_mod_converse};
use vstd::math::abs;
use crate::gfx::color::Colorful;
use crate::gfx::screen::{Screen, ScreenError};
use crate::gfx::surface::{lemma_paint_one, lemma_paint_push, Surface};

verus! {

/// How far a line has moved along its minor axis after `i` steps along its
/// major axis.
pub open spec fn minor_steps(i: int, major: int, minor: int) -> int {
    if major <= 0 {
        0
    } else {
        (2 * i * minor + major - 1) / (2 * major)
    }
}

/// The value of the error accumulator when pixel number `i` is drawn.
pub open spec fn error_term(i: int, major: int, minor: int) -> int {
    2 * (i + 1) * minor - major - 2 * minor_steps(i, major, minor) * major
}

/// Pixel number `i` of a line that is wider than high and runs from
/// `(x0, y0)` rightwards to `(x1, y1)`.
pub open spec fn low_point(x0: int, y0: int, x1: int, y1: int, i: int) -> (int, int) {
    if y1 >= y0 {
        (x0 + i, y0 + minor_steps(i, x1 - x0, y1 - y0))
    } else {
        (x0 + i, y0 - minor_steps(i, x1 - x0, y0 - y1))
    }
}

/// Pixel number `i` of a line that is at least as high as wide and runs from
/// `(x0, y0)` downwards to `(x1, y1)`.
pub open spec fn high_point(x0: int, y0: int, x1: int, y1: int, i: int) -> (int, int) {
    if x1 >= x0 {
        (x0 + minor_steps(i, y1 - y0, x1 - x0), y0 + i)
    } else {
        (x0 - minor_steps(i, y1 - y0, x0 - x1), y0 + i)
    }
}

/// The pixels of a line that is wider than high, from `(x0, y0)` rightwards
/// to `(x1, y1)`, in the order in which they are drawn.
pub open spec fn low_points(x0: int, y0: int, x1: int, y1: int) -> Seq<(int, int)> {
    if x1 < x0 {
        Seq::empty()
    } else {
        Seq::new((x1 - x0 + 1) as nat, |i: int| low_point(x0, y0, x1, y1, i))
    }
}

/// The pixels of a line that is at least as high as wide, from `(x0, y0)`
/// downwards to `(x1, y1)`, in the order in which they are drawn.
pub open spec fn high_points(x0: int, y0: int, x1: int, y1: int) -> Seq<(int, int)> {
    if y1 < y0 {
        Seq::empty()
    } else {
        Seq::new((y1 - y0 + 1) as nat, |i: int| high_point(x0, y0, x1, y1, i))
    }
}

/// The pixels of the line between `(x0, y0)` and `(x1, y1)`, both included, in
/// the order in which they are drawn: from left to right where the line is
/// wider than high, from top to bottom where it is not.
pub open spec fn line_points(x0: int, y0: int, x1: int, y1: int) -> Seq<(int, int)> {
    if abs(y1 - y0) < abs(x1 - x0) {
        if x0 > x1 {
            low_points(x1, y1, x0, y0)
        } else {
            low_points(x0, y0, x1, y1)
        }
    } else {
        if y0 > y1 {
            high_points(x1, y1, x0, y0)
        } else {
            high_points(x0, y0, x1, y1)
        }
    }
}

/// The error accumulator computes the rounded position: it starts at
/// `2 * minor - major`, and at each step the minor coordinate moves on exactly
/// when the accumulator is positive, which then loses `2 * major`; either
/// way it gains `2 * minor`. It stays small, and within the line's own steps
/// the minor coordinate stays between the end points.
pub proof fn lemma_error_step(i: int, major: int, minor: int)
    requires
        0 <= minor <= major,
        0 <= i,
    ensures
        minor_steps(0, major, minor) == 0,
        error_term(0, major, minor) == 2 * minor - major,
        minor_steps(i + 1, major, minor) == minor_steps(i, major, minor) + if error_term(
            i,
            major,
            minor,
        ) > 0 {
            1int
        } else {
            0int
        },
        error_term(i + 1, major, minor) == error_term(i, major, minor) + 2 * minor - if error_term(
            i,
            major,
            minor,
        ) > 0 {
            2 * major
        } else {
            0int
        },
        -2 * major <= error_term(i, major, minor) <= 2 * minor,
        i <= major ==> 0 <= minor_steps(i, major, minor) <= minor,
        minor_steps(major, major, minor) == minor,
{
    if major == 0 {
        assert(2 * (i + 1) * minor == 0) by (nonlinear_arith)
            requires
                minor == 0,
        ;
        assert(2 * (i + 2) * minor == 0) by (nonlinear_arith)
            requires
                minor == 0,
        ;
    } else {
        let m = 2 * major;
        let n = 2 * i * minor + major - 1;
        let k = n / m;
        let r = n % m;
        lemma_fundamental_div_mod(n, m);
        assert(n == m * k + r);
        assert(0 <= r < m);
        assert(2 * (i + 1) * minor == 2 * i * minor + 2 * minor) by (nonlinear_arith);
        assert(2 * (i + 2) * minor == 2 * i * minor + 4 * minor) by (nonlinear_arith);
        assert(2 * k * major == m * k) by (nonlinear_arith)
            requires
                m == 2 * major,
        ;
        assert(2 * (k + 1) * major == m * k + m) by (nonlinear_arith)
            requires
                m == 2 * major,
        ;
        assert((k + 1) * m == m * k + m) by (nonlinear_arith);
        assert(k * m == m * k) by (nonlinear_arith);
        let e = error_term(i, major, minor);
        assert(e == r + 2 * minor - m + 1);
        let n1 = 2 * (i + 1) * minor + major - 1;
        assert(n1 == n + 2 * minor);
        if e > 0 {
            lemma_fundamental_div_mod_converse(n1, m, k + 1, r + 2 * minor - m);
        } else {
            lemma_fundamental_div_mod_converse(n1, m, k, r + 2 * minor);
        }
        // The start.
        assert(2 * 0 * minor == 0) by (nonlinear_arith);
        lemma_fundamental_div_mod_converse(major - 1, m, 0, major - 1);
        assert(2 * (0 + 1) * minor == 2 * minor) by (nonlinear_arith);
        // The range within the line.
        assert(0 <= 2 * i * minor) by (nonlinear_arith)
            requires
                0 <= i,
                0 <= minor,
        ;
        assert(k >= 0) by (nonlinear_arith)
            requires
                n == m * k + r,
                r < m,
                n >= 0,
                m > 0,
        ;
        if i <= major {
            assert(2 * i * minor <= 2 * major * minor) by (nonlinear_arith)
                requires
                    0 <= i <= major,
                    0 <= minor,
            ;
            assert(k <= minor) by (nonlinear_arith)
                requires
                    n == m * k + r,
                    0 <= r,
                    n <= m * minor + major - 1,
                    m == 2 * major,
                    major > 0,
            ;
        }
        // The end.
        assert(2 * major * minor + major - 1 == minor * m + (major - 1)) by (nonlinear_arith)
            requires
                m == 2 * major,
        ;
        lemma_fundamental_div_mod_converse(2 * major * minor + major - 1, m, minor, major - 1);
    }
}

/// Every pixel of a line lies between its end points: where both are pixels
/// of a display, so is each pixel of the line.
pub proof fn lemma_line_inside(s: Surface, x0: int, y0: int, x1: int, y1: int)
    requires
        s.contains(x0, y0),
        s.contains(x1, y1),
    ensures
        s.contains_all(line_points(x0, y0, x1, y1)),
        line_points(x0, y0, x1, y1).len() == (if abs(y1 - y0) < abs(x1 - x0) {
            abs(x1 - x0)
        } else {
            abs(y1 - y0)
        }) + 1,
{
    let points = line_points(x0, y0, x1, y1);
    assert forall|i: int| 0 <= i < points.len() implies s.contains(
        #[trigger] points[i].0,
        points[i].1,
    ) by {
        if abs(y1 - y0) < abs(x1 - x0) {
            lemma_error_step(i, abs(x1 - x0) as int, abs(y1 - y0) as int);
        } else {
            lemma_error_step(i, abs(y1 - y0) as int, abs(x1 - x0) as int);
        }
    }
}

/// A line starts at one of its end points and ends at the other: at the left
/// one where it is wider than high, at the upper one where it is not.
pub proof fn lemma_line_ends(x0: int, y0: int, x1: int, y1: int)
    ensures
        line_points(x0, y0, x1, y1).len() >= 1,
        line_points(x0, y0, x1, y1).first() == (if abs(y1 - y0) < abs(x1 - x0) {
            if x0 > x1 {
                (x1, y1)
            } else {
                (x0, y0)
            }
        } else {
            if y0 > y1 {
                (x1, y1)
            } else {
                (x0, y0)
            }
        }),
        line_points(x0, y0, x1, y1).last() == (if abs(y1 - y0) < abs(x1 - x0) {
            if x0 > x1 {
                (x0, y0)
            } else {
                (x1, y1)
            }
        } else {
            if y0 > y1 {
                (x0, y0)
            } else {
                (x1, y1)
            }
        }),
{
    if abs(y1 - y0) < abs(x1 - x0) {
        lemma_error_step(0, abs(x1 - x0) as int, abs(y1 - y0) as int);
    } else {
        lemma_error_step(0, abs(y1 - y0) as int, abs(x1 - x0) as int);
    }
}

/// A line has no gaps: from each of its pixels to the next it moves one
/// pixel along its major axis and at most one along its minor axis.
pub proof fn lemma_line_connected(x0: int, y0: int, x1: int, y1: int, i: int)
    requires
        0 <= i,
        i + 1 < line_points(x0, y0, x1, y1).len(),
    ensures
        abs(y1 - y0) < abs(x1 - x0) ==> line_points(x0, y0, x1, y1)[i + 1].0 == line_points(
            x0,
            y0,
            x1,
            y1,
        )[i].0 + 1 && abs(
            line_points(x0, y0, x1, y1)[i + 1].1 - line_points(x0, y0, x1, y1)[i].1,
        ) <= 1,
        abs(y1 - y0) >= abs(x1 - x0) ==> line_points(x0, y0, x1, y1)[i + 1].1 == line_points(
            x0,
            y0,
            x1,
            y1,
        )[i].1 + 1 && abs(
            line_points(x0, y0, x1, y1)[i + 1].0 - line_points(x0, y0, x1, y1)[i].0,
        ) <= 1,
{
    if abs(y1 - y0) < abs(x1 - x0) {
        lemma_error_step(i, abs(x1 - x0) as int, abs(y1 - y0) as int);
    } else {
        lemma_error_step(i, abs(y1 - y0) as int, abs(x1 - x0) as int);
    }
}

/// A line from a pixel to itself is that one pixel.
pub proof fn lemma_degenerate_line(x: int, y: int)
    ensures
        line_points(x, y, x, y) == seq![(x, y)],
{
    assert(line_points(x, y, x, y) =~= seq![(x, y)]);
}

/// Drawing a line from a pixel to itself blends the colour's next query
/// into that one pixel and does nothing else.
pub proof fn lemma_degenerate_line_paints_one<C: Colorful>(s: Surface, x: int, y: int, color: C)
    ensures
        s.paint(line_points(x, y, x, y), color) == (
            s.blend(x, y, color.upcoming()),
            color.advanced(),
        ),
{
    lemma_degenerate_line(x, y);
    lemma_paint_one(s, (x, y), color);
}

/// A horizontal line is the pixels of its row from its left end to its right
/// end, both included, from left to right, whichever end was given first.
pub proof fn lemma_horizontal_line(x0: int, x1: int, y: int)
    ensures
        line_points(x0, y, x1, y) == Seq::new(
            (abs(x1 - x0) + 1) as nat,
            |i: int|
                (
                    (if x0 <= x1 {
                        x0
                    } else {
                        x1
                    }) + i,
                    y,
                ),
        ),
{
    let left = if x0 <= x1 {
        x0
    } else {
        x1
    };
    let expected = Seq::new((abs(x1 - x0) + 1) as nat, |i: int| (left + i, y));
    let points = line_points(x0, y, x1, y);
    if x0 == x1 {
        assert(points =~= expected);
    } else {
        assert forall|i: int| 0 <= i < points.len() implies points[i] == expected[i] by {
            lemma_minor_zero(i, abs(x1 - x0) as int);
        }
        assert(points =~= expected);
    }
}

/// A vertical line is the pixels of its column from its upper end to its
/// lower end, both included, from the top down, whichever end was given first.
pub proof fn lemma_vertical_line(x: int, y0: int, y1: int)
    ensures
        line_points(x, y0, x, y1) == Seq::new(
            (abs(y1 - y0) + 1) as nat,
            |i: int|
                (
                    x,
                    (if y0 <= y1 {
                        y0
                    } else {
                        y1
                    }) + i,
                ),
        ),
{
    let top = if y0 <= y1 {
        y0
    } else {
        y1
    };
    let expected = Seq::new((abs(y1 - y0) + 1) as nat, |i: int| (x, top + i));
    let points = line_points(x, y0, x, y1);
    assert forall|i: int| 0 <= i < points.len() implies points[i] == expected[i] by {
        lemma_minor_zero(i, abs(y1 - y0) as int);
    }
    assert(points =~= expected);
}

/// A line with no extent along its minor axis never moves along it.
pub proof fn lemma_minor_zero(i: int, major: int)
    requires
        0 <= i,
        0 <= major,
    ensures
        minor_steps(i, major, 0) == 0,
{
    if major > 0 {
        assert(2 * i * 0 == 0);
        lemma_fundamental_div_mod_converse(major - 1, 2 * major, 0, major - 1);
    }
}

/// Draws a line that is wider than high, from left to right.
fn plot_low<C: Colorful>(screen: &mut Screen, x0: i32, y0: i32, x1: i32, y1: i32, color: &mut C)
    requires
        old(screen).wf(),
        old(screen)@.contains(x0 as int, y0 as int),
        old(screen)@.contains(x1 as int, y1 as int),
        x0 <= x1,
        abs(y1 - y0) <= x1 - x0,
    ensures
        final(screen).wf(),
        final(screen)@.width == old(screen)@.width,
        final(screen)@.height == old(screen)@.height,
        (final(screen)@, *final(color)) == old(screen)@.paint(
            low_points(x0 as int, y0 as int, x1 as int, y1 as int),
            *old(color),
        ),
{
    let ghost start: Surface = screen@;
    let ghost first: C = *color;
    let ghost points = low_points(x0 as int, y0 as int, x1 as int, y1 as int);
    let dx: i64 = x1 as i64 - x0 as i64;
    let mut dy: i64 = y1 as i64 - y0 as i64;
    let mut yi: i64 = 1;
    if dy < 0 {
        yi = -1;
        dy = -dy;
    }
    let mut d: i64 = (2 * dy) - dx;
    let mut y: i64 = y0 as i64;
    let mut x: i64 = x0 as i64;
    proof {
        lemma_error_step(0, dx as int, dy as int);
        assert(points.take(0) =~= Seq::<(int, int)>::empty());
    }
    while x <= x1 as i64
        invariant
            screen.wf(),
            screen@.width == start.width,
            screen@.height == start.height,
            start.contains(x0 as int, y0 as int),
            start.contains(x1 as int, y1 as int),
            x0 <= x <= x1 + 1,
            dx == x1 - x0,
            0 <= dy <= dx,
            dy == abs(y1 - y0),
            yi == 1 || yi == -1,
            yi == 1 <==> y1 >= y0,
            points == low_points(x0 as int, y0 as int, x1 as int, y1 as int),
            d == error_term(x - x0, dx as int, dy as int),
            yi == 1 ==> y == y0 + minor_steps(x - x0, dx as int, dy as int),
            yi == -1 ==> y == y0 - minor_steps(x - x0, dx as int, dy as int),
            (screen@, *color) == start.paint(points.take(x - x0), first),
        decreases x1 - x + 1,
    {
        proof {
            lemma_error_step(x - x0, dx as int, dy as int);
            assert(points[x - x0] == (x as int, y as int));
            lemma_paint_push(start, points.take(x - x0), points[x - x0], first);
            assert(points.take(x - x0 + 1) =~= points.take(x - x0).push(points[x - x0]));
        }
        let _ = screen.blend_px(x as usize, y as usize, color);
        if d > 0 {
            y += yi;
            d += 2 * (dy - dx);
        } else {
            d += 2 * dy;
        }
        x += 1;
    }
    proof {
        assert(points.take(x - x0) =~= points);
    }
}

/// Draws a line that is at least as high as wide, from top to bottom.
fn plot_high<C: Colorful>(screen: &mut Screen, x0: i32, y0: i32, x1: i32, y1: i32, color: &mut C)
    requires
        old(screen).wf(),
        old(screen)@.contains(x0 as int, y0 as int),
        old(screen)@.contains(x1 as int, y1 as int),
        y0 <= y1,
        abs(x1 - x0) <= y1 - y0,
    ensures
        final(screen).wf(),
        final(screen)@.width == old(screen)@.width,
        final(screen)@.height == old(screen)@.height,
        (final(screen)@, *final(color)) == old(screen)@.paint(
            high_points(x0 as int, y0 as int, x1 as int, y1 as int),
            *old(color),
        ),
{
    let ghost start: Surface = screen@;
    let ghost first: C = *color;
    let ghost points = high_points(x0 as int, y0 as int, x1 as int, y1 as int);
    let mut dx: i64 = x1 as i64 - x0 as i64;
    let dy: i64 = y1 as i64 - y0 as i64;
    let mut xi: i64 = 1;
    if dx < 0 {
        xi = -1;
        dx = -dx;
    }
    let mut d: i64 = (2 * dx) - dy;
    let mut x: i64 = x0 as i64;
    let mut y: i64 = y0 as i64;
    proof {
        lemma_error_step(0, dy as int, dx as int);
        assert(points.take(0) =~= Seq::<(int, int)>::empty());
    }
    while y <= y1 as i64
        invariant
            screen.wf(),
            screen@.width == start.width,
            screen@.height == start.height,
            start.contains(x0 as int, y0 as int),
            start.contains(x1 as int, y1 as int),
            y0 <= y <= y1 + 1,
            dy == y1 - y0,
            0 <= dx <= dy,
            dx == abs(x1 - x0),
            xi == 1 || xi == -1,
            xi == 1 <==> x1 >= x0,
            points == high_points(x0 as int, y0 as int, x1 as int, y1 as int),
            d == error_term(y - y0, dy as int, dx as int),
            xi == 1 ==> x == x0 + minor_steps(y - y0, dy as int, dx as int),
            xi == -1 ==> x == x0 - minor_steps(y - y0, dy as int, dx as int),
            (screen@, *color) == start.paint(points.take(y - y0), first),
        decreases y1 - y + 1,
    {
        proof {
            lemma_error_step(y - y0, dy as int, dx as int);
            assert(points[y - y0] == (x as int, y as int));
            lemma_paint_push(start, points.take(y - y0), points[y - y0], first);
            assert(points.take(y - y0 + 1) =~= points.take(y - y0).push(points[y - y0]));
        }
        let _ = screen.blend_px(x as usize, y as usize, color);
        if d > 0 {
            x += xi;
            d += 2 * (dx - dy);
        } else {
            d += 2 * dx;
        }
        y += 1;
    }
    proof {
        assert(points.take(y - y0) =~= points);
    }
}

/// Draws the line between `(x0, y0)` and `(x1, y1)`, both end points
/// included, blending `color` into each of its pixels with one query of the
/// colour per pixel.
///
/// Where an end point is no pixel of the display the line is refused, nothing
/// is drawn and the colour is not queried.
pub fn draw_line<C: Colorful>(
    screen: &mut Screen,
    x0: i32,
    y0: i32,
    x1: i32,
    y1: i32,
    color: &mut C,
) -> (done: Result<(), ScreenError>)
    requires
        old(screen).wf(),
    ensures
        final(screen).wf(),
        final(screen)@.width == old(screen)@.width,
        final(screen)@.height == old(screen)@.height,
        (old(screen)@.contains(x0 as int, y0 as int) && old(screen)@.contains(
            x1 as int,
            y1 as int,
        )) ==> done is Ok && (final(screen)@, *final(color)) == old(screen)@.paint(
            line_points(x0 as int, y0 as int, x1 as int, y1 as int),
            *old(color),
        ),
        !(old(screen)@.contains(x0 as int, y0 as int) && old(screen)@.contains(
            x1 as int,
            y1 as int,
        )) ==> done == Err::<(), ScreenError>(ScreenError::OutOfBounds) && final(screen)@ == old(
            screen,
        )@ && *final(color) == *old(color),
{
    if !screen.holds(x0, y0) || !screen.holds(x1, y1) {
        return Err(ScreenError::OutOfBounds);
    }
    let high: i64 = if y1 >= y0 {
        y1 as i64 - y0 as i64
    } else {
        y0 as i64 - y1 as i64
    };
    let wide: i64 = if x1 >= x0 {
        x1 as i64 - x0 as i64
    } else {
        x0 as i64 - x1 as i64
    };
    if high < wide {
        if x0 > x1 {
            plot_low(screen, x1, y1, x0, y0, color);
        } else {
            plot_low(screen, x0, y0, x1, y1, color);
        }
    } else {
        if y0 > y1 {
            plot_high(screen, x1, y1, x0, y0, color);
        } else {
            plot_high(screen, x0, y0, x1, y1, color);
        }
    }
    Ok(())
}

} // verus!
