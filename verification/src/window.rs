//! A random passage: a few whole blocks in a row from one scene.

use crate::contents::SCENES;
use crate::model::{blocks_view, Block, BlockView};
use crate::store::Corpus;
use rand::rngs::ThreadRng;
use rand::Rng;
use vstd::prelude::*;

verus! {

#[verifier::external_type_specification]
#[verifier::external_body]
pub struct ExThreadRng(ThreadRng);

/// The fewest blocks that a passage holds.
pub const MIN_WINDOW: usize = 2;

/// The most blocks that a passage holds.
pub const MAX_WINDOW: usize = 5;

/// `Rng::gen_range` of `rand`, on the range `lo..=hi`: some number of that
/// range. Which one is left open; on an empty range the call would panic.
#[verifier::external_body]
fn pick(rng: &mut ThreadRng, lo: usize, hi: usize) -> (r: usize)
    requires
        lo <= hi,
    ensures
        lo <= r <= hi,
{
    rng.gen_range(lo..=hi)
}

/// The longest passage that a scene of `total` blocks allows.
pub open spec fn widest(total: nat) -> nat {
    if total < MAX_WINDOW {
        total
    } else {
        MAX_WINDOW as nat
    }
}

/// `passage` is `k` blocks in a row of `scene`, for a `k` that a random
/// passage may have.
pub open spec fn is_window(scene: Seq<BlockView>, passage: Seq<BlockView>) -> bool {
    &&& MIN_WINDOW <= passage.len() <= widest(scene.len())
    &&& exists|start: int|
        0 <= start <= scene.len() - passage.len() && passage == #[trigger] scene.subrange(
            start,
            start + passage.len(),
        )
}

/// The blocks of a scene from place `start` on: `k` of them, or as many as
/// are left.
pub open spec fn passage(blocks: Seq<BlockView>, start: nat, k: nat) -> Seq<BlockView> {
    let from = if start < blocks.len() {
        start
    } else {
        blocks.len()
    };
    let to = if from + k < blocks.len() {
        from + k
    } else {
        blocks.len()
    };
    blocks.subrange(from as int, to as int)
}

/// The blocks of a scene from place `start` on: `k` of them, or as many as
/// are left.
pub fn window(blocks: &Vec<Block>, start: usize, k: usize) -> (r: Vec<Block>)
    ensures
        blocks_view(r@) == passage(blocks_view(blocks@), start as nat, k as nat),
{
    let from: usize = if start < blocks.len() {
        start
    } else {
        blocks.len()
    };
    let count: usize = if k < blocks.len() - from {
        k
    } else {
        blocks.len() - from
    };
    let mut out: Vec<Block> = Vec::new();
    let mut i: usize = 0;
    while i < count
        invariant
            i <= count,
            from + count <= blocks.len(),
            out.len() == i,
            forall|j: int| 0 <= j < i ==> (#[trigger] out[j])@ == blocks[from + j]@,
        decreases count - i,
    {
        out.push(blocks[from + i].clone());
        i += 1;
    }
    assert(blocks_view(out@) =~= passage(blocks_view(blocks@), start as nat, k as nat));
    out
}

/// A random passage of a scene: between two and five blocks in a row, no
/// more than the scene has, from a random place in it.
pub fn random_window(rng: &mut ThreadRng, blocks: &Vec<Block>) -> (r: Vec<Block>)
    requires
        blocks.len() >= MIN_WINDOW,
    ensures
        is_window(blocks_view(blocks@), blocks_view(r@)),
        MIN_WINDOW <= r.len() <= MAX_WINDOW,
        r.len() <= blocks.len(),
{
    let most: usize = if blocks.len() < MAX_WINDOW {
        blocks.len()
    } else {
        MAX_WINDOW
    };
    let k: usize = pick(rng, MIN_WINDOW, most);
    let start: usize = pick(rng, 0, blocks.len() - k);
    let out = window(blocks, start, k);
    assert(blocks_view(out@) == blocks_view(blocks@).subrange(start as int, start + k));
    assert(blocks_view(out@).len() == k);
    out
}

impl Corpus {
    /// Every scene is long enough to take a random passage from.
    pub open spec fn windowable(&self) -> bool {
        forall|i: int| 0 <= i < self.scenes@.len() ==> (#[trigger] self.scenes@[i]).len() >= MIN_WINDOW
    }

    /// Whether every scene is long enough to take a random passage from.
    pub fn is_windowable(&self) -> (r: bool)
        ensures
            r == self.windowable(),
    {
        let mut i: usize = 0;
        while i < self.scenes.len()
            invariant
                i <= self.scenes.len(),
                forall|j: int| 0 <= j < i ==> (#[trigger] self.scenes@[j]).len() >= MIN_WINDOW,
            decreases self.scenes.len() - i,
        {
            if self.scenes[i].len() < MIN_WINDOW {
                return false;
            }
            i += 1;
        }
        true
    }

    /// One of the play's scenes, picked at random.
    pub fn random_scene(&self, rng: &mut ThreadRng) -> (r: &Vec<Block>)
        requires
            self.wf(),
        ensures
            exists|i: int| 0 <= i < SCENES && r == #[trigger] self.scenes@[i],
    {
        let i: usize = pick(rng, 0, SCENES - 1);
        &self.scenes[i]
    }
}

/// A random passage of the play: a random passage of a random scene.
pub fn blocks_to_show(rng: &mut ThreadRng, corpus: &Corpus) -> (r: Vec<Block>)
    requires
        corpus.wf(),
        corpus.windowable(),
    ensures
        exists|i: int| 0 <= i < SCENES && is_window(#[trigger] corpus@[i], blocks_view(r@)),
        MIN_WINDOW <= r.len() <= MAX_WINDOW,
{
    let scene = corpus.random_scene(rng);
    let out = random_window(rng, scene);
    proof {
        let i = choose|i: int| 0 <= i < SCENES && scene == #[trigger] corpus.scenes@[i];
        assert(corpus@[i] == blocks_view(scene@));
    }
    out
}

} // verus!
