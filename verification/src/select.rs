//! Cutting a requested range of line numbers out of a speech and out of a
//! scene.

use crate::model::{
    blocks_view, copy_lines, lines_view, text_count, Block, BlockView, Dialogue, DialogueView,
    Line, LineView,
};
use std::ops::RangeInclusive;
use vstd::prelude::*;

verus! {

/// The marker that stands where a speech was cut.
pub open spec fn ellipsis() -> LineView {
    LineView::Text("..."@)
}

/// `lines[i]` is spoken text with exactly `n` spoken lines before it, so it
/// carries the number `start + n` of its speech.
pub open spec fn is_nth_text(lines: Seq<LineView>, n: nat, i: int) -> bool {
    &&& 0 <= i < lines.len()
    &&& lines[i].is_text()
    &&& text_count(lines.take(i)) == n
}

/// The position of the spoken line that has `n` spoken lines before it.
/// Meaningful where `n < text_count(lines)`.
pub open spec fn text_index(lines: Seq<LineView>, n: nat) -> int {
    choose|i: int| is_nth_text(lines, n, i)
}

/// The speech `d` and the range `lo..=hi` share a line number.
pub open spec fn overlaps(d: DialogueView, lo: nat, hi: nat) -> bool {
    d.start <= hi && d.stop >= lo
}

/// The first line number of `d` that the range keeps.
pub open spec fn clip_lo(d: DialogueView, lo: nat) -> nat {
    if lo > d.start {
        lo
    } else {
        d.start
    }
}

/// The last line number of `d` that the range keeps.
pub open spec fn clip_hi(d: DialogueView, hi: nat) -> nat {
    if hi < d.stop {
        hi
    } else {
        d.stop
    }
}

/// How many spoken lines of `d` come before the first one whose number
/// reaches `bound`: the speech's first spoken line has the number `d.start`,
/// and each further one the next number.
pub open spec fn offset(d: DialogueView, bound: nat) -> nat {
    if bound > d.start {
        (bound - d.start) as nat
    } else {
        0
    }
}

/// Whether anything of `d` is left by the range `lo..=hi`: the range meets
/// the speech, the speech has a spoken line that reaches each of the two
/// numbers kept, and the one for the first does not come after the one for
/// the last.
pub open spec fn selects(d: DialogueView, lo: nat, hi: nat) -> bool {
    &&& overlaps(d, lo, hi)
    &&& offset(d, clip_lo(d, lo)) <= offset(d, clip_hi(d, hi)) < text_count(d.lines)
}

/// The marker in front of the kept lines, where the range starts after the
/// speech does.
pub open spec fn lead_marker(d: DialogueView, lo: nat) -> Seq<LineView> {
    if lo > d.start {
        seq![ellipsis()]
    } else {
        Seq::empty()
    }
}

/// The marker behind the kept lines, where the range ends before the speech
/// does.
pub open spec fn trail_marker(d: DialogueView, hi: nat) -> Seq<LineView> {
    if hi < d.stop {
        seq![ellipsis()]
    } else {
        Seq::empty()
    }
}

/// The lines of `d` from the first spoken line that reaches `clip_lo` to
/// the first that reaches `clip_hi`, both included, with the directions
/// between them.
pub open spec fn kept_lines(d: DialogueView, lo: nat, hi: nat) -> Seq<LineView> {
    d.lines.subrange(
        text_index(d.lines, offset(d, clip_lo(d, lo))),
        text_index(d.lines, offset(d, clip_hi(d, hi))) + 1,
    )
}

/// What the range `lo..=hi` leaves of `d`, where `selects(d, lo, hi)`.
pub open spec fn selected(d: DialogueView, lo: nat, hi: nat) -> DialogueView {
    DialogueView {
        character: d.character,
        lines: lead_marker(d, lo) + kept_lines(d, lo, hi) + trail_marker(d, hi),
        act: d.act,
        scene: d.scene,
        start: clip_lo(d, lo),
        stop: clip_hi(d, hi),
    }
}

/// A longer prefix has at least as many spoken lines.
pub proof fn lemma_text_count_take(lines: Seq<LineView>, i: int, j: int)
    requires
        0 <= i <= j <= lines.len(),
    ensures
        text_count(lines.take(i)) <= text_count(lines.take(j)),
        text_count(lines.take(j)) <= text_count(lines),
    decreases lines.len() - i,
{
    if j < lines.len() {
        assert(lines.take(j + 1).drop_last() =~= lines.take(j));
        lemma_text_count_take(lines, j + 1, lines.len() as int);
    } else {
        assert(lines.take(j) =~= lines);
    }
    if i < j {
        assert(lines.take(i + 1).drop_last() =~= lines.take(i));
        lemma_text_count_take(lines, i + 1, j);
    }
}

/// Spoken lines are numbered in the order in which they stand: of two of
/// them, the earlier has the smaller number.
pub proof fn lemma_text_order(lines: Seq<LineView>, n: nat, i: int, m: nat, j: int)
    requires
        is_nth_text(lines, n, i),
        is_nth_text(lines, m, j),
    ensures
        i < j <==> n < m,
        i == j <==> n == m,
        n < text_count(lines),
{
    assert(lines.take(i + 1).drop_last() =~= lines.take(i));
    assert(lines.take(j + 1).drop_last() =~= lines.take(j));
    lemma_text_count_take(lines, i + 1, lines.len() as int);
    if i < j {
        lemma_text_count_take(lines, i + 1, j);
    }
    if j < i {
        lemma_text_count_take(lines, j + 1, i);
    }
}

/// The position of the spoken line with `n` spoken lines before it, if
/// `lines` has that many.
pub fn find_text(lines: &Vec<Line>, n: usize) -> (r: Option<usize>)
    ensures
        r is Some <==> n < text_count(lines_view(lines@)),
        r is Some ==> is_nth_text(lines_view(lines@), n as nat, r.unwrap() as int),
        r is Some ==> r.unwrap() as int == text_index(lines_view(lines@), n as nat),
{
    let ghost v = lines_view(lines@);
    let mut count: usize = 0;
    let mut i: usize = 0;
    while i < lines.len()
        invariant
            i <= lines.len(),
            v == lines_view(lines@),
            count == text_count(v.take(i as int)),
            count <= n,
            count <= i,
        decreases lines.len() - i,
    {
        proof {
            assert(v.take(i + 1).drop_last() =~= v.take(i as int));
        }
        if lines[i].is_text() {
            if count == n {
                proof {
                    lemma_text_order(v, n as nat, i as int, n as nat, i as int);
                    lemma_text_order(v, n as nat, i as int, n as nat, text_index(v, n as nat));
                }
                return Some(i);
            }
            count += 1;
        }
        i += 1;
    }
    proof {
        assert(v.take(i as int) =~= v);
    }
    None
}

/// `RangeInclusive::start` of std: the lower bound that the range was made
/// with. Of a range that was walked to its end std leaves it open.
pub assume_specification<Idx>[ RangeInclusive::<Idx>::start ](r: &RangeInclusive<Idx>) -> (b: &Idx)
    ensures
        !r@.exhausted ==> *b == r@.start,
;

/// `RangeInclusive::end` of std: the upper bound that the range was made
/// with. Of a range that was walked to its end std leaves it open.
pub assume_specification<Idx>[ RangeInclusive::<Idx>::end ](r: &RangeInclusive<Idx>) -> (b: &Idx)
    ensures
        !r@.exhausted ==> *b == r@.end,
;

/// A line of spoken text that reads `...`.
fn ellipsis_line() -> (r: Line)
    ensures
        r@ == ellipsis(),
{
    Line::Text("...".to_owned())
}

impl Dialogue {
    /// What the range of line numbers leaves of this speech: the spoken lines
    /// whose numbers lie in the range, with the directions between them, a
    /// marker at each end where the range cuts the speech, and the numbers of
    /// the lines kept. `None` where the range leaves nothing.
    ///
    /// The range is one that still has its bounds: of a range that was
    /// walked to its end nothing is said.
    pub fn selection(&self, range: &RangeInclusive<usize>) -> (r: Option<Dialogue>)
        ensures
            !range@.exhausted ==> (r is Some <==> selects(
                self@,
                range@.start as nat,
                range@.end as nat,
            )),
            !range@.exhausted && r is Some ==> r.unwrap()@ == selected(
                self@,
                range@.start as nat,
                range@.end as nat,
            ),
    {
        let lo: usize = *range.start();
        let hi: usize = *range.end();
        if self.start > hi || self.stop < lo {
            return None;
        }
        let start_line: usize = if lo > self.start {
            lo
        } else {
            self.start
        };
        let stop_line: usize = if hi < self.stop {
            hi
        } else {
            self.stop
        };
        let first_offset: usize = start_line - self.start;
        let last_offset: usize = if stop_line > self.start {
            stop_line - self.start
        } else {
            0
        };
        let ghost v = lines_view(self.lines@);
        let first: usize = match find_text(&self.lines, first_offset) {
            Some(i) => i,
            None => { return None; },
        };
        let last: usize = match find_text(&self.lines, last_offset) {
            Some(i) => i,
            None => { return None; },
        };
        proof {
            lemma_text_order(v, first_offset as nat, first as int, last_offset as nat, last as int);
        }
        if first > last {
            return None;
        }
        assert(last < self.lines.len());
        let mut lines: Vec<Line> = Vec::new();
        if lo > self.start {
            lines.push(ellipsis_line());
        }
        let ghost lead = lines_view(lines@);
        let mut kept = copy_lines(&self.lines, first, last + 1);
        let ghost mid = lines_view(kept@);
        lines.append(&mut kept);
        assert(lines_view(lines@) =~= lead + mid);
        if hi < self.stop {
            lines.push(ellipsis_line());
        }
        assert(lines_view(lines@) =~= lead + mid + trail_marker(self@, hi as nat));
        assert(lead =~= lead_marker(self@, lo as nat));
        Some(
            Dialogue {
                character: self.character.clone(),
                lines,
                act: self.act,
                scene: self.scene,
                start: start_line,
                stop: stop_line,
            },
        )
    }
}

/// What the range `lo..=hi` leaves of a block: nothing of a heading, which
/// has no line numbers, and of a speech what [`selected`] says.
pub open spec fn select_block(b: BlockView, lo: nat, hi: nat) -> Option<BlockView> {
    match b {
        BlockView::Heading(_) => None,
        BlockView::Dialogue(d) => if selects(d, lo, hi) {
            Some(BlockView::Dialogue(selected(d, lo, hi)))
        } else {
            None
        },
    }
}

impl Block {
    /// What the range of line numbers leaves of this block.
    pub fn selection(&self, range: &RangeInclusive<usize>) -> (r: Option<Block>)
        ensures
            !range@.exhausted ==> match r {
                Some(b) => Some(b@) == select_block(self@, range@.start as nat, range@.end as nat),
                None => select_block(self@, range@.start as nat, range@.end as nat) is None,
            },
    {
        match self {
            Block::Heading(_) => None,
            Block::Dialogue(d) => match d.selection(range) {
                Some(s) => Some(Block::Dialogue(s)),
                None => None,
            },
        }
    }
}

/// What the range `lo..=hi` leaves of a scene: of each block what
/// [`select_block`] says, in the scene's order.
pub open spec fn select_blocks(blocks: Seq<BlockView>, lo: nat, hi: nat) -> Seq<BlockView>
    decreases blocks.len(),
{
    if blocks.len() == 0 {
        Seq::empty()
    } else {
        select_blocks(blocks.drop_last(), lo, hi) + match select_block(blocks.last(), lo, hi) {
            Some(b) => seq![b],
            None => Seq::empty(),
        }
    }
}

/// The excerpt that the range of line numbers cuts out of a scene, or
/// `None` where the scene has no line in the range.
///
/// The range is one that still has its bounds: of a range that was walked to
/// its end nothing is said but that `Some` is not empty.
pub fn select(blocks: &Vec<Block>, range: &RangeInclusive<usize>) -> (r: Option<Vec<Block>>)
    ensures
        r is Some ==> r.unwrap()@.len() > 0,
        !range@.exhausted ==> (r is None <==> select_blocks(
            blocks_view(blocks@),
            range@.start as nat,
            range@.end as nat,
        ).len() == 0),
        !range@.exhausted && r is Some ==> blocks_view(r.unwrap()@) == select_blocks(
            blocks_view(blocks@),
            range@.start as nat,
            range@.end as nat,
        ),
{
    let ghost v = blocks_view(blocks@);
    let ghost lo = range@.start as nat;
    let ghost hi = range@.end as nat;
    let mut out: Vec<Block> = Vec::new();
    let mut i: usize = 0;
    while i < blocks.len()
        invariant
            i <= blocks.len(),
            v == blocks_view(blocks@),
            lo == range@.start as nat,
            hi == range@.end as nat,
            !range@.exhausted ==> blocks_view(out@) == select_blocks(v.take(i as int), lo, hi),
        decreases blocks.len() - i,
    {
        proof {
            assert(v.take(i + 1).drop_last() =~= v.take(i as int));
        }
        let ghost before = blocks_view(out@);
        match blocks[i].selection(range) {
            Some(b) => {
                out.push(b);
                assert(blocks_view(out@) =~= before + seq![b@]);
            },
            None => {
                assert(blocks_view(out@) =~= before + Seq::empty());
            },
        }
        i += 1;
    }
    proof {
        assert(v.take(i as int) =~= v);
    }
    if out.len() == 0 {
        None
    } else {
        Some(out)
    }
}

} // verus!
