//! The whole play, scene by scene, and the excerpts taken from it.

use crate::contents::{resolve, scene_index, ACTS, SCENES};
use crate::error::LearError;
use crate::model::{blocks_view, Block, BlockView};
use crate::select::{select, select_blocks};
use std::ops::RangeInclusive;
use vstd::prelude::*;

verus! {

/// The scenes of the play in the order of the table of contents, each as
/// its sequence of blocks.
pub struct Corpus {
    pub scenes: Vec<Vec<Block>>,
}

impl View for Corpus {
    type V = Seq<Seq<BlockView>>;

    open spec fn view(&self) -> Seq<Seq<BlockView>> {
        Seq::new(self.scenes@.len(), |i: int| blocks_view(self.scenes@[i]@))
    }
}

impl Corpus {
    /// The corpus holds every scene of the table of contents.
    pub open spec fn wf(&self) -> bool {
        self.scenes@.len() == SCENES
    }

    /// The corpus of these scenes, if they are as many as the play has.
    pub fn new(scenes: Vec<Vec<Block>>) -> (r: Option<Corpus>)
        ensures
            r is Some <==> scenes@.len() == SCENES,
            r is Some ==> r.unwrap().scenes == scenes && r.unwrap().wf(),
    {
        if scenes.len() == SCENES {
            Some(Corpus { scenes })
        } else {
            None
        }
    }

    /// The scene of that act and number.
    pub fn resolve(&self, act: usize, scene: usize) -> (r: Result<&Vec<Block>, LearError>)
        requires
            self.wf(),
        ensures
            match r {
                Ok(blocks) => {
                    &&& scene_index(act as nat, scene as nat) is Some
                    &&& blocks_view(blocks@) == self@[scene_index(
                        act as nat,
                        scene as nat,
                    ).unwrap() as int]
                },
                Err(e) => {
                    &&& scene_index(act as nat, scene as nat) is None
                    &&& e == if 1 <= act <= ACTS {
                        LearError::InvalidScene { act, scene }
                    } else {
                        LearError::InvalidAct(act)
                    }
                },
            },
    {
        match resolve(act, scene) {
            Ok(i) => Ok(&self.scenes[i]),
            Err(e) => Err(e),
        }
    }
}

/// The excerpt of a scene that a range of line numbers asks for.
///
/// Fails with `InvalidAct` where the play has no such act, with
/// `InvalidScene` where the act has no such scene, and with `InvalidLines`
/// where the scene has no line in the range. The range is one that still
/// has its bounds.
pub fn text(corpus: &Corpus, act: usize, scene: usize, lines: RangeInclusive<usize>) -> (r: Result<
    Vec<Block>,
    LearError,
>)
    requires
        corpus.wf(),
    ensures
        match scene_index(act as nat, scene as nat) {
            None => r == Err::<Vec<Block>, LearError>(
                if 1 <= act <= ACTS {
                    LearError::InvalidScene { act, scene }
                } else {
                    LearError::InvalidAct(act)
                },
            ),
            Some(i) => !lines@.exhausted ==> {
                let excerpt = select_blocks(
                    corpus@[i as int],
                    lines@.start as nat,
                    lines@.end as nat,
                );
                if excerpt.len() == 0 {
                    r == Err::<Vec<Block>, LearError>(LearError::InvalidLines { act, scene, lines })
                } else {
                    r is Ok && blocks_view(r.unwrap()@) == excerpt
                }
            },
        },
{
    let blocks = match corpus.resolve(act, scene) {
        Ok(b) => b,
        Err(e) => { return Err(e); },
    };
    match select(blocks, &lines) {
        Some(excerpt) => Ok(excerpt),
        None => Err(LearError::InvalidLines { act, scene, lines }),
    }
}

} // verus!
