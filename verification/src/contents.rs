//! The play's acts and scenes, and where each scene lies in the flat list
//! of all scenes.

use crate::error::LearError;
use std::ops::RangeInclusive;
use vstd::prelude::*;

verus! {

/// The number of acts.
pub const ACTS: usize = 5;

/// The number of scenes, all acts together.
pub const SCENES: usize = 26;

/// How many scenes the act has; 0 where there is no such act.
pub open spec fn scenes_in(act: nat) -> nat {
    if act == 1 {
        5
    } else if act == 2 {
        4
    } else if act == 3 {
        7
    } else if act == 4 {
        7
    } else if act == 5 {
        3
    } else {
        0
    }
}

/// How many scenes lie before the act's first one.
pub open spec fn scenes_before(act: nat) -> nat
    decreases act,
{
    if act <= 1 {
        0
    } else {
        scenes_before((act - 1) as nat) + scenes_in((act - 1) as nat)
    }
}

/// The place of a scene in the flat list of scenes, where the play has that
/// act and the act has that scene.
pub open spec fn scene_index(act: nat, scene: nat) -> Option<nat> {
    if 1 <= act <= ACTS && 1 <= scene <= scenes_in(act) {
        Some((scenes_before(act) + scene - 1) as nat)
    } else {
        None
    }
}

/// One act in the table of contents: where its first scene lies in the flat
/// list, and the numbers of its scenes.
pub struct TableEntry {
    pub start: usize,
    pub scenes: RangeInclusive<usize>,
}

impl TableEntry {
    /// The entry's scene numbers start at 1 or later, and its last scene
    /// has a place that fits the machine.
    pub open spec fn wf(&self) -> bool {
        &&& !self.scenes@.exhausted
        &&& 1 <= self.scenes@.start
        &&& self.start + self.scenes@.end <= usize::MAX
    }

    /// Whether the act has a scene of that number.
    pub open spec fn has(&self, scene: usize) -> bool {
        self.scenes@.start <= scene <= self.scenes@.end
    }

    /// The place of the act's scene in the flat list, if it has that scene.
    pub fn index(&self, scene: usize) -> (r: Option<usize>)
        requires
            self.wf(),
        ensures
            r is Some <==> self.has(scene),
            r is Some ==> r.unwrap() == self.start + scene - 1,
    {
        if self.scenes.contains(&scene) {
            Some(self.start + scene - 1)
        } else {
            None
        }
    }
}

/// The table of contents' entry for an act, if the play has that act.
pub fn table_entry(act: usize) -> (r: Option<TableEntry>)
    ensures
        r is Some <==> 1 <= act <= ACTS,
        r is Some ==> {
            let e = r.unwrap();
            &&& e.wf()
            &&& e.start == scenes_before(act as nat)
            &&& e.scenes@.start == 1
            &&& e.scenes@.end == scenes_in(act as nat)
        },
{
    reveal_with_fuel(scenes_before, 6);
    if act == 1 {
        Some(TableEntry { start: 0, scenes: RangeInclusive::new(1, 5) })
    } else if act == 2 {
        Some(TableEntry { start: 5, scenes: RangeInclusive::new(1, 4) })
    } else if act == 3 {
        Some(TableEntry { start: 9, scenes: RangeInclusive::new(1, 7) })
    } else if act == 4 {
        Some(TableEntry { start: 16, scenes: RangeInclusive::new(1, 7) })
    } else if act == 5 {
        Some(TableEntry { start: 23, scenes: RangeInclusive::new(1, 3) })
    } else {
        None
    }
}

/// The place of a scene in the flat list of scenes. An act that the play
/// lacks is refused first, then a scene that the act lacks.
pub fn resolve(act: usize, scene: usize) -> (r: Result<usize, LearError>)
    ensures
        match r {
            Ok(i) => scene_index(act as nat, scene as nat) == Some(i as nat) && i < SCENES,
            Err(e) => if 1 <= act <= ACTS {
                e == (LearError::InvalidScene { act, scene }) && !(1 <= scene <= scenes_in(
                    act as nat,
                ))
            } else {
                e == LearError::InvalidAct(act)
            },
        },
{
    reveal_with_fuel(scenes_before, 6);
    let entry = match table_entry(act) {
        Some(e) => e,
        None => { return Err(LearError::InvalidAct(act)); },
    };
    match entry.index(scene) {
        Some(i) => Ok(i),
        None => Err(LearError::InvalidScene { act, scene }),
    }
}

} // verus!
