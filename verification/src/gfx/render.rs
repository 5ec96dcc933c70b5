//! Conversion of an image in `[r, g, b, a, r, g, b, a, ...]` form into the
//! packed format of the display, composited over one background colour.

use vstd::prelude::*;
use itertools::Itertools;
use crate::gfx::codec::{blend, blended, color_to_16_bits, pack_high, pack_low};
use crate::gfx::screen::ScreenError;

verus! {

/// Two sequences taken in turn, the first one first, until both have run
/// out: while both last their items alternate, after that come the items
/// that the longer one has left.
pub open spec fn interleaved(a: Seq<u8>, b: Seq<u8>) -> Seq<u8> {
    let m = if a.len() <= b.len() {
        a.len()
    } else {
        b.len()
    };
    Seq::new(
        a.len() + b.len(),
        |i: int|
            if i < 2 * m {
                if i % 2 == 0 {
                    a[i / 2]
                } else {
                    b[i / 2]
                }
            } else if a.len() > b.len() {
                a[i - m]
            } else {
                b[i - m]
            },
    )
}

/// `Itertools::interleave` on the items of two vectors, collected into a
/// vector: the items of both taken in turn, starting with the first vector's.
/// Once one of the two has run out, what the other has left follows.
#[verifier::external_body]
fn interleave_bytes(first: Vec<u8>, second: Vec<u8>) -> (out: Vec<u8>)
    ensures
        out@ == interleaved(first@, second@),
{
    first.into_iter().interleave(second.into_iter()).collect()
}

/// The colour of pixel number `p` of the RGBA image `data` composited over
/// the background `(br, bg, bb)`.
pub open spec fn composited(data: Seq<u8>, p: int, br: u8, bg: u8, bb: u8) -> (u8, u8, u8) {
    blended(data[4 * p], data[4 * p + 1], data[4 * p + 2], data[4 * p + 3], br, bg, bb)
}

/// The packed form of the RGBA image `data` over the background
/// `(br, bg, bb)`: for each pixel, in order, the two bytes of its composited
/// colour.
pub open spec fn rendered(data: Seq<u8>, br: u8, bg: u8, bb: u8) -> Seq<u8> {
    Seq::new(
        ((data.len() / 4) * 2) as nat,
        |i: int|
            {
                let c = composited(data, i / 2, br, bg, bb);
                if i % 2 == 0 {
                    pack_high(c.1, c.2)
                } else {
                    pack_low(c.0, c.1)
                }
            },
    )
}

/// Composites each pixel of an RGBA image over an opaque background and
/// packs the result, pixel after pixel.
///
/// An image whose length is no multiple of 4 is refused.
pub fn render_rgba(data: &[u8], br: u8, bg: u8, bb: u8) -> (out: Result<Vec<u8>, ScreenError>)
    ensures
        data@.len() % 4 == 0 ==> out is Ok && out->Ok_0@ == rendered(data@, br, bg, bb),
        data@.len() % 4 != 0 ==> out == Err::<Vec<u8>, ScreenError>(ScreenError::Malformed),
{
    if data.len() % 4 != 0 {
        return Err(ScreenError::Malformed);
    }
    let n: usize = data.len() / 4;
    let mut hi: Vec<u8> = Vec::new();
    let mut lo: Vec<u8> = Vec::new();
    let mut p: usize = 0;
    while p < n
        invariant
            n == data@.len() / 4,
            data@.len() % 4 == 0,
            data@.len() <= usize::MAX,
            0 <= p <= n,
            hi@.len() == p,
            lo@.len() == p,
            forall|q: int|
                0 <= q < p ==> #[trigger] hi@[q] == pack_high(
                    composited(data@, q, br, bg, bb).1,
                    composited(data@, q, br, bg, bb).2,
                ),
            forall|q: int|
                0 <= q < p ==> #[trigger] lo@[q] == pack_low(
                    composited(data@, q, br, bg, bb).0,
                    composited(data@, q, br, bg, bb).1,
                ),
        decreases n - p,
    {
        let (r, g, b) = blend(
            data[4 * p],
            data[4 * p + 1],
            data[4 * p + 2],
            data[4 * p + 3],
            br,
            bg,
            bb,
        );
        let (h, l) = color_to_16_bits(r, g, b);
        hi.push(h);
        lo.push(l);
        p += 1;
    }
    let out = interleave_bytes(hi, lo);
    assert(out@ =~= rendered(data@, br, bg, bb));
    Ok(out)
}

} // verus!
