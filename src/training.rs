use vstd::prelude::*;

use vstd::arithmetic::div_mod::lemma_fundamental_div_mod_converse;

use crate::engine::{input_patch, input_patch_spec, BLOCK_LEN, PATCH_LEN};
use crate::naming::{checkpoint_name, checkpoint_name_spec};
use crate::raster::Raster;
use crate::sampler::{quad, quad_spec, sample, sample_spec};

verus! {

/// Size of the training source made from a width × height image: each side
/// divided by the scale factor, rounded down.
pub fn downsampled_size(width: usize, height: usize) -> (r: (usize, usize))
    ensures
        r.0 == width / 2,
        r.1 == height / 2,
{
    (width / 2, height / 2)
}

/// The target block of anchor (x, y) of the downsampled image: the 2 × 2
/// block of the full-resolution image at (2x, 2y).
pub open spec fn target_block_spec<C: Copy>(orig: Raster<C>, x: int, y: int, fill: C) -> Seq<C> {
    sample_spec(orig, x * 2, y * 2, quad_spec(), fill)
}

pub fn target_block<C: Copy>(orig: &Raster<C>, x: usize, y: usize, fill: C) -> (r: Vec<C>)
    requires
        orig.wf(),
        x * 2 <= usize::MAX,
        y * 2 <= usize::MAX,
    ensures
        r@ == target_block_spec(*orig, x as int, y as int, fill),
        r@.len() == BLOCK_LEN,
{
    let pattern = quad();
    sample(orig, x * 2, y * 2, &pattern, fill)
}

/// The training pair of anchor (x, y): the input patch from the downsampled
/// image, read through the same pattern and fill as at inference, and the
/// target block from the full-resolution image.
pub fn training_pair<C: Copy>(orig: &Raster<C>, down: &Raster<C>, x: usize, y: usize, fill: C) -> (r: (
    Vec<C>,
    Vec<C>,
))
    requires
        orig.wf(),
        down.wf(),
        x * 2 <= usize::MAX,
        y * 2 <= usize::MAX,
    ensures
        r.0@ == input_patch_spec(*down, x as int, y as int, fill),
        r.1@ == target_block_spec(*orig, x as int, y as int, fill),
        r.0@.len() == PATCH_LEN,
        r.1@.len() == BLOCK_LEN,
{
    (input_patch(down, x, y, fill), target_block(orig, x, y, fill))
}

/// The anchors of a width × height downsampled image in training order:
/// row by row, each row left to right.
pub fn training_anchors(width: usize, height: usize) -> (r: Vec<(usize, usize)>)
    ensures
        r@.len() == width * height,
        forall|i: int| 0 <= i < r@.len() ==> #[trigger] r@[i] == ((i % width as int) as usize, (i / width as int) as usize),
{
    let mut r: Vec<(usize, usize)> = Vec::new();
    let mut y: usize = 0;
    while y < height
        invariant
            y <= height,
            r@.len() == y * width,
            forall|i: int| 0 <= i < r@.len() ==> #[trigger] r@[i] == ((i % width as int) as usize, (i / width as int) as usize),
        decreases height - y,
    {
        let mut x: usize = 0;
        while x < width
            invariant
                y < height,
                x <= width,
                r@.len() == y * width + x,
                forall|i: int| 0 <= i < r@.len() ==> #[trigger] r@[i] == ((i % width as int) as usize, (i / width as int) as usize),
            decreases width - x,
        {
            proof {
                lemma_fundamental_div_mod_converse((y * width + x) as int, width as int, y as int, x as int);
            }
            r.push((x, y));
            x += 1;
        }
        proof {
            assert((y + 1) * width == y * width + width) by (nonlinear_arith);
        }
        y += 1;
    }
    assert(height * width == width * height) by (nonlinear_arith);
    r
}

/// Whole percent of an image done once `row` of its `rows` rows are done.
pub fn progress_percent(row: usize, rows: usize) -> (r: u32)
    requires
        row < rows,
    ensures
        r == (row as int) * 100 / (rows as int),
{
    proof {
        assert((row as int) * 100 / (rows as int) <= 100) by (nonlinear_arith)
            requires row < rows;
    }
    (row as u128 * 100 / rows as u128) as u32
}

/// What to do with a corpus file once its decoding was attempted.
#[derive(Clone, Copy, Debug, PartialEq, Eq, Structural)]
pub enum FileAction {
    /// Decoding failed: warn and go on with the next file.
    Unreadable,
    /// Decoded, but passed over to resume an earlier run.
    Skip,
    /// Train on it, then write a checkpoint.
    Train,
}

/// One step of the driver: from the number of files still to pass over and
/// whether the file decoded, to the next such number and the action.
pub open spec fn step(skip: nat, decoded: bool) -> (nat, FileAction) {
    if !decoded {
        (skip, FileAction::Unreadable)
    } else if skip > 0 {
        ((skip - 1) as nat, FileAction::Skip)
    } else {
        (skip, FileAction::Train)
    }
}

/// The actions taken over a run of files, given whether each one decoded.
pub open spec fn actions(skip: nat, decoded: Seq<bool>) -> Seq<FileAction>
    decreases decoded.len(),
{
    if decoded.len() == 0 {
        Seq::empty()
    } else {
        let (next, a) = step(skip, decoded[0]);
        seq![a] + actions(next, decoded.drop_first())
    }
}

/// Positions, in traversal order, of the files trained on.
pub open spec fn trained_positions(acts: Seq<FileAction>) -> Seq<int>
    decreases acts.len(),
{
    if acts.len() == 0 {
        Seq::empty()
    } else {
        let rest = trained_positions(acts.drop_first()).map_values(|p: int| p + 1);
        if acts[0] == FileAction::Train {
            seq![0int] + rest
        } else {
            rest
        }
    }
}

/// Number of files that decoded.
pub open spec fn decoded_count(decoded: Seq<bool>) -> nat
    decreases decoded.len(),
{
    if decoded.len() == 0 {
        0
    } else {
        (if decoded[0] { 1nat } else { 0nat }) + decoded_count(decoded.drop_first())
    }
}

/// The training driver's progress over a corpus: how many decoded files are
/// still to be passed over, and how many have been trained on and
/// checkpointed.
pub struct Driver {
    skip_remaining: usize,
    completed: usize,
}

impl Driver {
    pub closed spec fn spec_skip_remaining(&self) -> nat {
        self.skip_remaining as nat
    }

    pub closed spec fn spec_completed(&self) -> nat {
        self.completed as nat
    }

    /// A driver that passes over the first `skip_n_images` decodable files.
    pub fn new(skip_n_images: usize) -> (r: Self)
        ensures
            r.spec_skip_remaining() == skip_n_images,
            r.spec_completed() == 0,
    {
        Driver { skip_remaining: skip_n_images, completed: 0 }
    }

    /// The action for the next corpus file, given whether it decoded.
    pub fn on_decoded(&mut self, decoded: bool) -> (r: FileAction)
        ensures
            (final(self).spec_skip_remaining(), r) == step(old(self).spec_skip_remaining(), decoded),
            final(self).spec_completed() == old(self).spec_completed(),
    {
        if !decoded {
            FileAction::Unreadable
        } else if self.skip_remaining > 0 {
            self.skip_remaining = self.skip_remaining - 1;
            FileAction::Skip
        } else {
            FileAction::Train
        }
    }

    /// Records that training on the current file finished, and returns the
    /// path under `base` to write the checkpoint to; the count of completed
    /// files goes up by one.
    pub fn complete_file(&mut self, base: &str) -> (r: String)
        requires
            old(self).spec_completed() < usize::MAX,
        ensures
            r@ == checkpoint_name_spec(base@, old(self).spec_completed()),
            final(self).spec_completed() == old(self).spec_completed() + 1,
            final(self).spec_skip_remaining() == old(self).spec_skip_remaining(),
    {
        let name = checkpoint_name(base, self.completed);
        self.completed = self.completed + 1;
        name
    }

    pub fn completed(&self) -> (r: usize)
        ensures
            r == self.spec_completed(),
    {
        self.completed
    }

    pub fn skip_remaining(&self) -> (r: usize)
        ensures
            r == self.spec_skip_remaining(),
    {
        self.skip_remaining
    }
}

proof fn lemma_skip_shift(s: Seq<int>, k: int)
    requires
        0 <= k <= s.len(),
    ensures
        s.map_values(|p: int| p + 1).subrange(k, s.len() as int) =~= s.subrange(k, s.len() as int).map_values(
            |p: int| p + 1,
        ),
{
}

/// Resuming with `k` files to pass over trains on exactly the files, in the
/// same order, that a run without skipping trains on from its (k+1)-th one;
/// with more to pass over than there are decodable files, on none.
pub proof fn lemma_resume_trains_suffix(decoded: Seq<bool>, k: nat)
    ensures
        trained_positions(actions(0, decoded)).len() == decoded_count(decoded),
        k <= decoded_count(decoded) ==> trained_positions(actions(k, decoded)) == trained_positions(
            actions(0, decoded),
        ).subrange(k as int, decoded_count(decoded) as int),
        k > decoded_count(decoded) ==> trained_positions(actions(k, decoded)).len() == 0,
    decreases decoded.len(),
{
    if decoded.len() > 0 {
        let rest = decoded.drop_first();
        lemma_resume_trains_suffix(rest, 0);
        let t0 = trained_positions(actions(0, rest));
        assert(actions(0, decoded).drop_first() =~= actions(step(0, decoded[0]).0, rest));
        if k > 0 && decoded[0] {
            lemma_resume_trains_suffix(rest, (k - 1) as nat);
            assert(actions(k, decoded).drop_first() =~= actions((k - 1) as nat, rest));
            if k <= decoded_count(decoded) {
                lemma_skip_shift(t0, k - 1);
                assert(trained_positions(actions(0, decoded)) =~= seq![0int] + t0.map_values(|p: int| p + 1));
                assert(trained_positions(actions(0, decoded)).subrange(k as int, decoded_count(decoded) as int)
                    =~= t0.map_values(|p: int| p + 1).subrange(k - 1, t0.len() as int));
            }
        } else if k > 0 {
            lemma_resume_trains_suffix(rest, k);
            assert(actions(k, decoded).drop_first() =~= actions(k, rest));
            if k <= decoded_count(decoded) {
                lemma_skip_shift(t0, k as int);
            }
        }
    }
}

/// Every file trained on is followed by exactly one checkpoint, so a run over
/// files of which some fail to decode writes as many checkpoints as there are
/// decodable files beyond those passed over: unreadable files never count.
pub proof fn lemma_checkpoints_count_decoded_files(decoded: Seq<bool>, k: nat)
    ensures
        trained_positions(actions(k, decoded)).len() == if k <= decoded_count(decoded) {
            decoded_count(decoded) - k
        } else {
            0
        },
{
    lemma_resume_trains_suffix(decoded, k);
}

} // verus!
