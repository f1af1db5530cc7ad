use vstd::prelude::*;

use crate::raster::Raster;

verus! {

/// A relative position (dx, dy) around an anchor pixel.
#[derive(Clone, Copy, Debug, PartialEq, Eq, Structural)]
pub struct Offset {
    pub dx: isize,
    pub dy: isize,
}

/// The nine-pixel input neighbourhood, centre first, then clockwise from above.
/// Training and inference both read input patches through this one pattern.
pub open spec fn neighborhood_spec() -> Seq<Offset> {
    seq![
        Offset { dx: 0, dy: 0 },
        Offset { dx: 0, dy: -1isize },
        Offset { dx: -1isize, dy: -1isize },
        Offset { dx: -1isize, dy: 0 },
        Offset { dx: -1isize, dy: 1 },
        Offset { dx: 0, dy: 1 },
        Offset { dx: 1, dy: 1 },
        Offset { dx: 1, dy: 0 },
        Offset { dx: 1, dy: -1isize },
    ]
}

/// The 2 × 2 output block: block position q holds offset (q / 2, q % 2).
pub open spec fn quad_spec() -> Seq<Offset> {
    seq![
        Offset { dx: 0, dy: 0 },
        Offset { dx: 0, dy: 1 },
        Offset { dx: 1, dy: 0 },
        Offset { dx: 1, dy: 1 },
    ]
}

pub fn neighborhood() -> (r: Vec<Offset>)
    ensures
        r@ == neighborhood_spec(),
{
    let mut r: Vec<Offset> = Vec::new();
    r.push(Offset { dx: 0, dy: 0 });
    r.push(Offset { dx: 0, dy: -1 });
    r.push(Offset { dx: -1, dy: -1 });
    r.push(Offset { dx: -1, dy: 0 });
    r.push(Offset { dx: -1, dy: 1 });
    r.push(Offset { dx: 0, dy: 1 });
    r.push(Offset { dx: 1, dy: 1 });
    r.push(Offset { dx: 1, dy: 0 });
    r.push(Offset { dx: 1, dy: -1 });
    assert(r@ =~= neighborhood_spec());
    r
}

pub fn quad() -> (r: Vec<Offset>)
    ensures
        r@ == quad_spec(),
{
    let mut r: Vec<Offset> = Vec::new();
    r.push(Offset { dx: 0, dy: 0 });
    r.push(Offset { dx: 0, dy: 1 });
    r.push(Offset { dx: 1, dy: 0 });
    r.push(Offset { dx: 1, dy: 1 });
    assert(r@ =~= quad_spec());
    r
}

/// Channel `ch` of the pixel at `(x + o.dx, y + o.dy)`, or `fill` where that
/// position lies outside the image.
pub open spec fn sample_at<C: Copy>(img: Raster<C>, x: int, y: int, o: Offset, fill: C, ch: int) -> C {
    if img.contains(x + o.dx, y + o.dy) {
        img.at(x + o.dx, y + o.dy, ch)
    } else {
        fill
    }
}

/// The patch vector: three channels per offset, in pattern order.
pub open spec fn sample_spec<C: Copy>(
    img: Raster<C>,
    x: int,
    y: int,
    pattern: Seq<Offset>,
    fill: C,
) -> Seq<C> {
    Seq::new(pattern.len() * 3, |i: int| sample_at(img, x, y, pattern[i / 3], fill, i % 3))
}

/// `c + d` where it lies in `[0, limit)`.
fn shift(c: usize, d: isize, limit: usize) -> (r: Option<usize>)
    ensures
        r matches Some(v) ==> v == c + d,
        r is Some <==> 0 <= c + d < limit,
{
    if d >= 0 {
        let du = d as usize;
        if du < limit && c < limit - du {
            Some(c + du)
        } else {
            None
        }
    } else {
        let m = (-(d + 1)) as usize + 1;
        if c >= m && c - m < limit {
            Some(c - m)
        } else {
            None
        }
    }
}

/// Samples `img` at every offset of `pattern` around the anchor (x, y),
/// substituting `fill` for each channel of a position outside the image.
pub fn sample<C: Copy>(img: &Raster<C>, x: usize, y: usize, pattern: &Vec<Offset>, fill: C) -> (r: Vec<C>)
    requires
        img.wf(),
    ensures
        r@ == sample_spec(*img, x as int, y as int, pattern@, fill),
        r@.len() == pattern@.len() * 3,
{
    let mut r: Vec<C> = Vec::new();
    let w = img.width();
    let h = img.height();
    let mut k: usize = 0;
    while k < pattern.len()
        invariant
            img.wf(),
            w == img.spec_width(),
            h == img.spec_height(),
            k <= pattern@.len(),
            r@.len() == k * 3,
            forall|i: int| 0 <= i < k * 3
                ==> #[trigger] r@[i] == sample_at(*img, x as int, y as int, pattern@[i / 3], fill, i % 3),
        decreases pattern@.len() - k,
    {
        let o = pattern[k];
        let sx = shift(x, o.dx, w);
        let sy = shift(y, o.dy, h);
        let mut ch: usize = 0;
        while ch < 3
            invariant
                img.wf(),
                w == img.spec_width(),
                h == img.spec_height(),
                k < pattern@.len(),
                o == pattern@[k as int],
                sx is Some <==> 0 <= x + o.dx < w,
                sx matches Some(v) ==> v == x + o.dx,
                sy is Some <==> 0 <= y + o.dy < h,
                sy matches Some(v) ==> v == y + o.dy,
                ch <= 3,
                r@.len() == k * 3 + ch,
                forall|i: int| 0 <= i < k * 3 + ch
                    ==> #[trigger] r@[i] == sample_at(*img, x as int, y as int, pattern@[i / 3], fill, i % 3),
            decreases 3 - ch,
        {
            let v = match (sx, sy) {
                (Some(px), Some(py)) => img.channel(px, py, ch),
                _ => fill,
            };
            r.push(v);
            proof {
                let i = k * 3 + ch;
                assert(i / 3 == k as int);
                assert(i % 3 == ch as int);
            }
            ch += 1;
        }
        k += 1;
    }
    assert(r@ =~= sample_spec(*img, x as int, y as int, pattern@, fill));
    r
}

/// Away from the border by at least the largest offset magnitude, sampling
/// never substitutes the fill value: every offset lands inside the image and
/// every channel of the patch is read from it.
pub proof fn lemma_interior_reads_no_fill<C: Copy>(
    img: Raster<C>,
    x: int,
    y: int,
    pattern: Seq<Offset>,
    fill: C,
    margin: int,
)
    requires
        img.wf(),
        forall|k: int| 0 <= k < pattern.len() ==> -margin <= #[trigger] pattern[k].dx <= margin
            && -margin <= pattern[k].dy <= margin,
        margin <= x < img.spec_width() - margin,
        margin <= y < img.spec_height() - margin,
    ensures
        forall|k: int| 0 <= k < pattern.len()
            ==> img.contains(x + #[trigger] pattern[k].dx, y + pattern[k].dy),
        forall|i: int| 0 <= i < pattern.len() * 3 ==> #[trigger] sample_spec(img, x, y, pattern, fill)[i]
            == img.at(x + pattern[i / 3].dx, y + pattern[i / 3].dy, i % 3),
{
    assert forall|i: int| 0 <= i < pattern.len() * 3 implies #[trigger] sample_spec(img, x, y, pattern, fill)[i]
        == img.at(x + pattern[i / 3].dx, y + pattern[i / 3].dy, i % 3) by {
        let k = i / 3;
        assert(0 <= k < pattern.len());
        assert(-margin <= pattern[k].dx <= margin);
    }
}

} // verus!
