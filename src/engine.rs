use vstd::prelude::*;

use vstd::arithmetic::div_mod::lemma_fundamental_div_mod_converse;

use crate::raster::{pixel_base, Raster};
use crate::sampler::{neighborhood, neighborhood_spec, quad_spec, sample, sample_at, sample_spec};

verus! {

/// Magnification of one pass, in each direction.
pub const SCALE: usize = 2;

/// Number of samples in one predicted output block (four pixels, three channels).
pub const BLOCK_LEN: usize = 12;

/// Number of samples in one input patch (nine pixels, three channels).
pub const PATCH_LEN: usize = 27;

/// A model output whose length is not `BLOCK_LEN`.
#[derive(Clone, Copy, Debug, PartialEq, Eq, Structural)]
pub struct ShapeError {
    pub expected: usize,
    pub found: usize,
}

/// The input patch of anchor (x, y): the nine-neighbourhood of `img`.
pub open spec fn input_patch_spec<C: Copy>(img: Raster<C>, x: int, y: int, fill: C) -> Seq<C> {
    sample_spec(img, x, y, neighborhood_spec(), fill)
}

/// Output position of block entry `q` of anchor (x, y).
pub open spec fn destination(x: int, y: int, q: int) -> (int, int) {
    (x * 2 + quad_spec()[q].dx, y * 2 + quad_spec()[q].dy)
}

/// Sample `k` of the output assembled from one block per anchor of a
/// width × height input, blocks given in row-major anchor order.
pub open spec fn output_sample<C>(width: int, blocks: Seq<Seq<C>>, k: int) -> C {
    let p = k / 3;
    let ox = p % (width * 2);
    let oy = p / (width * 2);
    blocks[(oy / 2) * width + ox / 2][((ox % 2) * 2 + oy % 2) * 3 + k % 3]
}

pub open spec fn assembled<C>(width: int, height: int, blocks: Seq<Seq<C>>) -> Seq<C> {
    Seq::new((width * 2 * (height * 2) * 3) as nat, |k: int| output_sample(width, blocks, k))
}

pub open spec fn blocks_well_shaped<C>(blocks: Seq<Vec<C>>) -> bool {
    forall|i: int| 0 <= i < blocks.len() ==> (#[trigger] blocks[i])@.len() == BLOCK_LEN
}

pub open spec fn views<C>(blocks: Seq<Vec<C>>) -> Seq<Seq<C>> {
    blocks.map_values(|b: Vec<C>| b@)
}

/// The input patch of anchor (x, y), shared by training and inference.
pub fn input_patch<C: Copy>(img: &Raster<C>, x: usize, y: usize, fill: C) -> (r: Vec<C>)
    requires
        img.wf(),
    ensures
        r@ == input_patch_spec(*img, x as int, y as int, fill),
        r@.len() == PATCH_LEN,
{
    let pattern = neighborhood();
    sample(img, x, y, &pattern, fill)
}

proof fn lemma_anchor_index_bound(ax: int, ay: int, w: int, h: int)
    requires
        0 <= ax < w,
        0 <= ay < h,
    ensures
        0 <= ay * w + ax < w * h,
        0 <= ay * w <= ay * w + ax,
{
    assert(ay * w + ax < w * h) by (nonlinear_arith)
        requires 0 <= ax < w, 0 <= ay < h;
    assert(0 <= ay * w) by (nonlinear_arith)
        requires 0 <= ay, 0 <= w;
}

proof fn lemma_div_below(p: int, d: int, m: int)
    requires
        0 <= p < d * m,
        d > 0,
    ensures
        p / d < m,
{
    vstd::arithmetic::div_mod::lemma_fundamental_div_mod(p, d);
    let q = p / d;
    if q >= m {
        assert(d * q >= d * m) by (nonlinear_arith)
            requires q >= m, d > 0;
    }
}

/// The 2w × 2h output whose block at each anchor is that anchor's entry of
/// `blocks`; fails, naming the length found, where a block is not `BLOCK_LEN` long.
pub fn assemble<C: Copy>(width: usize, height: usize, blocks: &Vec<Vec<C>>) -> (r: Result<Raster<C>, ShapeError>)
    requires
        blocks@.len() == width * height,
        width * 2 <= usize::MAX,
        height * 2 <= usize::MAX,
        width * 2 * (height * 2) * 3 <= usize::MAX,
    ensures
        r is Ok <==> blocks_well_shaped(blocks@),
        r matches Ok(out) ==> out.wf() && out.spec_width() == width * 2 && out.spec_height() == height * 2
            && out@ == assembled(width as int, height as int, views(blocks@)),
        r matches Err(e) ==> e.expected == BLOCK_LEN && exists|i: int|
            0 <= i < blocks@.len() && (#[trigger] blocks@[i])@.len() == e.found && e.found != BLOCK_LEN,
{
    let n = blocks.len();
    let mut i: usize = 0;
    while i < n
        invariant
            n == blocks@.len(),
            i <= n,
            forall|j: int| 0 <= j < i ==> (#[trigger] blocks@[j])@.len() == BLOCK_LEN,
        decreases n - i,
    {
        let found = blocks[i].len();
        if found != BLOCK_LEN {
            return Err(ShapeError { expected: BLOCK_LEN, found });
        }
        i += 1;
    }
    let ow = width * 2;
    let oh = height * 2;
    let total = ow * oh * 3;
    let ghost bv = views(blocks@);
    let mut samples: Vec<C> = Vec::new();
    let mut k: usize = 0;
    while k < total
        invariant
            n == blocks@.len(),
            n == width * height,
            ow == width * 2,
            oh == height * 2,
            total == ow * oh * 3,
            bv == views(blocks@),
            blocks_well_shaped(blocks@),
            k <= total,
            samples@.len() == k,
            forall|j: int| 0 <= j < k ==> #[trigger] samples@[j] == output_sample(width as int, bv, j),
        decreases total - k,
    {
        let p = k / 3;
        let c = k % 3;
        let ox = p % ow;
        let oy = p / ow;
        proof {
            assert(p < ow * oh);
            lemma_div_below(p as int, ow as int, oh as int);
            lemma_anchor_index_bound(ox as int / 2, oy as int / 2, width as int, height as int);
        }
        let bi = (oy / 2) * width + ox / 2;
        let q = (ox % 2) * 2 + oy % 2;
        proof {
            assert(blocks@[bi as int]@.len() == BLOCK_LEN);
        }
        samples.push(blocks[bi][q * 3 + c]);
        k += 1;
    }
    assert(samples@ =~= assembled(width as int, height as int, bv));
    let out = Raster::new(ow, oh, samples);
    match out {
        Some(o) => Ok(o),
        None => {
            assert(false);
            Err(ShapeError { expected: BLOCK_LEN, found: 0 })
        },
    }
}

/// `out` is one upscaling pass over `img`: twice its size in each direction,
/// with each anchor's block being what `model` returned for its input patch.
pub open spec fn is_pass<C: Copy, F: Fn(Vec<C>) -> Vec<C>>(img: Raster<C>, out: Raster<C>, model: F, fill: C) -> bool {
    &&& out.wf()
    &&& out.spec_width() == img.spec_width() * 2
    &&& out.spec_height() == img.spec_height() * 2
    &&& exists|ins: Seq<Vec<C>>, outs: Seq<Vec<C>>|
        ins.len() == img.spec_width() * img.spec_height() && outs.len() == ins.len()
            && (forall|i: int| 0 <= i < ins.len() ==> (#[trigger] ins[i])@ == input_patch_spec(
                img,
                i % img.spec_width() as int,
                i / img.spec_width() as int,
                fill,
            ) && model.ensures((ins[i],), outs[i]))
            && blocks_well_shaped(outs)
            && out@ == assembled(img.spec_width() as int, img.spec_height() as int, views(outs))
}

/// One upscaling pass: each anchor's input patch goes through `model`, and
/// the block it returns becomes the anchor's 2 × 2 block of the output.
/// Fails where the model returns a block of another length than `BLOCK_LEN`.
pub fn apply<C: Copy, F: Fn(Vec<C>) -> Vec<C>>(img: &Raster<C>, model: &F, fill: C) -> (r: Result<Raster<C>, ShapeError>)
    requires
        img.wf(),
        img.spec_width() * 2 <= usize::MAX,
        img.spec_height() * 2 <= usize::MAX,
        img.spec_width() * 2 * (img.spec_height() * 2) * 3 <= usize::MAX,
        forall|v: Vec<C>| v@.len() == PATCH_LEN ==> #[trigger] model.requires((v,)),
    ensures
        r matches Ok(out) ==> is_pass(*img, out, *model, fill),
        r matches Err(e) ==> e.expected == BLOCK_LEN && e.found != BLOCK_LEN && exists|x: int, y: int, v: Vec<C>, b: Vec<C>|
            #![trigger input_patch_spec(*img, x, y, fill), model.ensures((v,), b)]
            img.contains(x, y) && v@ == input_patch_spec(*img, x, y, fill)
            && model.ensures((v,), b) && b@.len() == e.found,
{
    let w = img.width();
    let h = img.height();
    let ghost mut ins: Seq<Vec<C>> = Seq::empty();
    let mut outs: Vec<Vec<C>> = Vec::new();
    let mut y: usize = 0;
    while y < h
        invariant
            img.wf(),
            w == img.spec_width(),
            h == img.spec_height(),
            y <= h,
            ins.len() == y * w,
            outs@.len() == ins.len(),
            forall|v: Vec<C>| v@.len() == PATCH_LEN ==> #[trigger] model.requires((v,)),
            forall|i: int| 0 <= i < ins.len() ==> (#[trigger] ins[i])@ == input_patch_spec(*img, i % w as int, i / w as int, fill)
                && model.ensures((ins[i],), outs@[i]),
        decreases h - y,
    {
        let mut x: usize = 0;
        while x < w
            invariant
                img.wf(),
                w == img.spec_width(),
                h == img.spec_height(),
                y < h,
                x <= w,
                ins.len() == y * w + x,
                outs@.len() == ins.len(),
                forall|v: Vec<C>| v@.len() == PATCH_LEN ==> #[trigger] model.requires((v,)),
                forall|i: int| 0 <= i < ins.len() ==> (#[trigger] ins[i])@ == input_patch_spec(*img, i % w as int, i / w as int, fill)
                    && model.ensures((ins[i],), outs@[i]),
            decreases w - x,
        {
            let patch = input_patch(img, x, y, fill);
            proof {
                lemma_fundamental_div_mod_converse((y * w + x) as int, w as int, y as int, x as int);
                ins = ins.push(patch);
            }
            let b = model(patch);
            outs.push(b);
            x += 1;
        }
        proof {
            assert((y + 1) * w == y * w + w) by (nonlinear_arith);
        }
        y += 1;
    }
    assert(h * w == w * h) by (nonlinear_arith);
    let r = assemble(w, h, &outs);
    proof {
        if r is Err {
            let e = r->Err_0;
            let i = choose|i: int| 0 <= i < outs@.len() && (#[trigger] outs@[i])@.len() == e.found && e.found != BLOCK_LEN;
            assert(ins[i]@ == input_patch_spec(*img, i % w as int, i / w as int, fill));
            lemma_div_below(i, w as int, h as int);
            assert(model.ensures((ins[i],), outs@[i]));
        }
    }
    assert(r is Ok ==> ins.len() == w * h && outs@.len() == ins.len());
    r
}

/// Mapping an anchor to any of its block's output positions and dividing by
/// the scale factor gives the anchor back.
pub proof fn lemma_destination_round_trip(x: int, y: int, q: int)
    requires
        0 <= x,
        0 <= y,
        0 <= q < 4,
    ensures
        destination(x, y, q).0 / 2 == x,
        destination(x, y, q).1 / 2 == y,
        destination(x, y, q).0 % 2 == q / 2,
        destination(x, y, q).1 % 2 == q % 2,
{
}

/// In an assembled output, entry `q` of an anchor's block stands at the
/// anchor's destination `q`, which lies inside the output.
pub proof fn lemma_block_lands_at_destination<C>(
    width: int,
    height: int,
    blocks: Seq<Seq<C>>,
    x: int,
    y: int,
    q: int,
    ch: int,
)
    requires
        0 <= x < width,
        0 <= y < height,
        0 <= q < 4,
        0 <= ch < 3,
    ensures
        0 <= destination(x, y, q).0 < width * 2,
        0 <= destination(x, y, q).1 < height * 2,
        assembled(width, height, blocks)[pixel_base(width * 2, destination(x, y, q).0, destination(x, y, q).1) + ch]
            == blocks[y * width + x][q * 3 + ch],
{
    let (ox, oy) = destination(x, y, q);
    lemma_destination_round_trip(x, y, q);
    let ow = width * 2;
    let p = oy * ow + ox;
    let k = p * 3 + ch;
    assert(0 <= p < ow * (height * 2)) by (nonlinear_arith)
        requires p == oy * ow + ox, 0 <= ox < ow, 0 <= oy < height * 2;
    assert(k < ow * (height * 2) * 3);
    lemma_fundamental_div_mod_converse(k, 3, p, ch);
    lemma_fundamental_div_mod_converse(p, ow, oy, ox);
    assert(k == pixel_base(ow, ox, oy) + ch);
}

/// In a pass, output pixel (ox, oy) is written by the block that the model
/// returned for the input patch of anchor (ox / 2, oy / 2): entry
/// `(ox % 2) * 2 + oy % 2` of that block, the quad offset (ox % 2, oy % 2).
pub proof fn lemma_pass_pixel_source<C: Copy, F: Fn(Vec<C>) -> Vec<C>>(
    img: Raster<C>,
    out: Raster<C>,
    model: F,
    fill: C,
    ox: int,
    oy: int,
    ch: int,
)
    requires
        img.wf(),
        is_pass(img, out, model, fill),
        0 <= ox < out.spec_width(),
        0 <= oy < out.spec_height(),
        0 <= ch < 3,
    ensures
        img.contains(ox / 2, oy / 2),
        exists|v: Vec<C>, b: Vec<C>|
            #![trigger model.ensures((v,), b)]
            v@ == input_patch_spec(img, ox / 2, oy / 2, fill) && model.ensures((v,), b)
            && b@.len() == BLOCK_LEN && out.at(ox, oy, ch) == b@[((ox % 2) * 2 + oy % 2) * 3 + ch],
{
    let w = img.spec_width() as int;
    let h = img.spec_height() as int;
    let (ins, outs) = choose|ins: Seq<Vec<C>>, outs: Seq<Vec<C>>|
        ins.len() == img.spec_width() * img.spec_height() && outs.len() == ins.len()
            && (forall|i: int| 0 <= i < ins.len() ==> (#[trigger] ins[i])@ == input_patch_spec(
                img,
                i % img.spec_width() as int,
                i / img.spec_width() as int,
                fill,
            ) && model.ensures((ins[i],), outs[i]))
            && blocks_well_shaped(outs)
            && out@ == assembled(img.spec_width() as int, img.spec_height() as int, views(outs));
    let x = ox / 2;
    let y = oy / 2;
    let q = (ox % 2) * 2 + oy % 2;
    assert(destination(x, y, q) == (ox, oy));
    lemma_block_lands_at_destination(w, h, views(outs), x, y, q, ch);
    let i = y * w + x;
    lemma_anchor_index_bound(x, y, w, h);
    lemma_fundamental_div_mod_converse(i, w, y, x);
    assert(model.ensures((ins[i],), outs[i]));
    assert(outs[i]@.len() == BLOCK_LEN);
}

/// Four copies of the first pixel (three samples) of a patch.
pub open spec fn replicated_centre<C>(patch: Seq<C>) -> Seq<C> {
    Seq::new(12, |i: int| patch[i % 3])
}

/// With a model that repeats the centre pixel of its patch over the whole
/// block, a pass copies each source pixel onto its 2 × 2 block, exactly.
pub proof fn lemma_centre_model_replicates_pixels<C: Copy, F: Fn(Vec<C>) -> Vec<C>>(
    img: Raster<C>,
    out: Raster<C>,
    model: F,
    fill: C,
    ox: int,
    oy: int,
    ch: int,
)
    requires
        img.wf(),
        is_pass(img, out, model, fill),
        forall|v: Vec<C>, b: Vec<C>| #[trigger] model.ensures((v,), b) ==> b@ == replicated_centre(v@),
        0 <= ox < out.spec_width(),
        0 <= oy < out.spec_height(),
        0 <= ch < 3,
    ensures
        out.at(ox, oy, ch) == img.at(ox / 2, oy / 2, ch),
{
    let w = img.spec_width() as int;
    let h = img.spec_height() as int;
    let (ins, outs) = choose|ins: Seq<Vec<C>>, outs: Seq<Vec<C>>|
        ins.len() == img.spec_width() * img.spec_height() && outs.len() == ins.len()
            && (forall|i: int| 0 <= i < ins.len() ==> (#[trigger] ins[i])@ == input_patch_spec(
                img,
                i % img.spec_width() as int,
                i / img.spec_width() as int,
                fill,
            ) && model.ensures((ins[i],), outs[i]))
            && blocks_well_shaped(outs)
            && out@ == assembled(img.spec_width() as int, img.spec_height() as int, views(outs));
    let x = ox / 2;
    let y = oy / 2;
    let q = (ox % 2) * 2 + oy % 2;
    assert(ox == x * 2 + ox % 2 && oy == y * 2 + oy % 2);
    assert(0 <= x < w && 0 <= y < h);
    assert(destination(x, y, q) == (ox, oy));
    lemma_block_lands_at_destination(w, h, views(outs), x, y, q, ch);
    let i = y * w + x;
    lemma_anchor_index_bound(x, y, w, h);
    lemma_fundamental_div_mod_converse(i, w, y, x);
    assert(model.ensures((ins[i],), outs[i]));
    assert(outs[i]@[q * 3 + ch] == ins[i]@[(q * 3 + ch) % 3]);
    assert((q * 3 + ch) % 3 == ch);
    assert(ins[i]@ == input_patch_spec(img, x, y, fill));
    assert(ins[i]@[ch] == sample_at(img, x, y, neighborhood_spec()[0], fill, ch));
}

/// Magnification of `passes` successive passes.
pub open spec fn magnification(passes: nat) -> nat
    decreases passes,
{
    if passes == 0 {
        1
    } else {
        2 * magnification((passes - 1) as nat)
    }
}

proof fn lemma_magnification_grows(i: nat, j: nat)
    requires
        i <= j,
    ensures
        1 <= magnification(i) <= magnification(j),
    decreases j,
{
    if j > i {
        lemma_magnification_grows(i, (j - 1) as nat);
    } else if i > 0 {
        lemma_magnification_grows((i - 1) as nat, (i - 1) as nat);
    }
}

/// `times` passes, each over the output of the one before: the result is
/// `2^times` times larger in each direction, and each step is one pass of
/// `model`.
pub fn apply_times<C: Copy, F: Fn(Vec<C>) -> Vec<C>>(img: Raster<C>, model: &F, times: usize, fill: C) -> (r: Result<Raster<C>, ShapeError>)
    requires
        img.wf(),
        img.spec_width() * magnification(times as nat) <= usize::MAX,
        img.spec_height() * magnification(times as nat) <= usize::MAX,
        img.spec_width() * magnification(times as nat) * (img.spec_height() * magnification(times as nat)) * 3
            <= usize::MAX,
        forall|v: Vec<C>| v@.len() == PATCH_LEN ==> #[trigger] model.requires((v,)),
    ensures
        r matches Ok(out) ==> out.wf() && out.spec_width() == img.spec_width() * magnification(times as nat)
            && out.spec_height() == img.spec_height() * magnification(times as nat)
            && exists|chain: Seq<Raster<C>>| chain.len() == times + 1 && chain[0] == img
                && chain[times as int] == out
                && forall|i: int| 0 <= i < times ==> #[trigger] is_pass(chain[i], chain[i + 1], *model, fill),
        r matches Err(e) ==> e.expected == BLOCK_LEN && e.found != BLOCK_LEN && exists|v: Vec<C>, b: Vec<C>|
            v@.len() == PATCH_LEN && #[trigger] model.ensures((v,), b) && b@.len() == e.found,
        times == 0 ==> (r matches Ok(out) && out == img),
{
    let ghost w = img.spec_width();
    let ghost h = img.spec_height();
    let ghost mt = magnification(times as nat);
    let ghost mut chain: Seq<Raster<C>> = seq![img];
    let mut cur = img;
    let mut i: usize = 0;
    assert(magnification(0) == 1);
    assert(w * magnification(0) == w);
    assert(h * magnification(0) == h);
    while i < times
        invariant
            i <= times,
            cur.wf(),
            w * mt <= usize::MAX,
            h * mt <= usize::MAX,
            w * mt * (h * mt) * 3 <= usize::MAX,
            mt == magnification(times as nat),
            cur.spec_width() == w * magnification(i as nat),
            cur.spec_height() == h * magnification(i as nat),
            forall|v: Vec<C>| v@.len() == PATCH_LEN ==> #[trigger] model.requires((v,)),
            chain.len() == i + 1,
            chain[0] == img,
            chain[i as int] == cur,
            forall|j: int| 0 <= j < i ==> #[trigger] is_pass(chain[j], chain[j + 1], *model, fill),
        decreases times - i,
    {
        proof {
            let m2 = magnification((i + 1) as nat);
            lemma_magnification_grows((i + 1) as nat, times as nat);
            assert(w * m2 <= w * mt) by (nonlinear_arith)
                requires m2 <= mt;
            assert(h * m2 <= h * mt) by (nonlinear_arith)
                requires m2 <= mt;
            assert(w * m2 * (h * m2) <= w * mt * (h * mt)) by (nonlinear_arith)
                requires w * m2 <= w * mt, h * m2 <= h * mt;
            assert(cur.spec_width() * 2 == w * m2) by (nonlinear_arith)
                requires cur.spec_width() == w * magnification(i as nat), m2 == 2 * magnification(i as nat);
            assert(cur.spec_height() * 2 == h * m2) by (nonlinear_arith)
                requires cur.spec_height() == h * magnification(i as nat), m2 == 2 * magnification(i as nat);
        }
        let next = apply(&cur, model, fill);
        match next {
            Ok(out) => {
                proof {
                    chain = chain.push(out);
                }
                cur = out;
            },
            Err(e) => {
                proof {
                    let (x, y, v, b) = choose|x: int, y: int, v: Vec<C>, b: Vec<C>|
                        #![trigger input_patch_spec(cur, x, y, fill), model.ensures((v,), b)]
                        cur.contains(x, y) && v@ == input_patch_spec(cur, x, y, fill)
                        && model.ensures((v,), b) && b@.len() == e.found;
                    assert(v@.len() == PATCH_LEN);
                }
                return Err(e);
            },
        }
        i += 1;
    }
    Ok(cur)
}

} // verus!
