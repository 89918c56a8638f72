//! What holds of every selection, of the table of contents, and of numbers
//! as text.

use crate::contents::{scene_index, scenes_before, SCENES};
use crate::layout::{decimal, digit};
use crate::model::{dialogues_of, text_count, BlockView, DialogueView, LineView};
use crate::request::{all_digits, digit_value, digits_value, number_of, unsigned_part};
use crate::select::{
    clip_hi, clip_lo, ellipsis, is_nth_text, kept_lines, lemma_text_order, offset, select_block,
    select_blocks, selected, selects, text_index,
};
use vstd::prelude::*;

verus! {

/// The speech begins and ends with a spoken line.
pub open spec fn text_at_both_ends(d: DialogueView) -> bool {
    d.lines.len() > 0 && d.lines.first().is_text() && d.lines.last().is_text()
}

/// The range `lo..=hi` covers every line number of `d`.
pub open spec fn covers(d: DialogueView, lo: nat, hi: nat) -> bool {
    lo <= d.start && d.stop <= hi
}

/// Where `lines` has more than `n` spoken lines, `text_index` is the
/// position of the one with `n` before it.
pub proof fn lemma_text_index(lines: Seq<LineView>, n: nat)
    requires
        n < text_count(lines),
    ensures
        is_nth_text(lines, n, text_index(lines, n)),
    decreases lines.len(),
{
    if lines.len() > 0 {
        let front = lines.drop_last();
        if n < text_count(front) {
            lemma_text_index(front, n);
            let i = text_index(front, n);
            assert(front.take(i) =~= lines.take(i));
            assert(is_nth_text(lines, n, i));
        } else {
            let i = lines.len() - 1;
            assert(lines.take(i) =~= front);
            assert(is_nth_text(lines, n, i));
        }
    }
}

/// `lines[i]` of `d` is spoken text whose number, the speech's first number
/// and the count of spoken lines before it, reaches `bound`.
pub open spec fn reaches(d: DialogueView, bound: nat, i: int) -> bool {
    &&& 0 <= i < d.lines.len()
    &&& d.lines[i].is_text()
    &&& d.start + text_count(d.lines.take(i)) >= bound
}

/// The spoken line with `offset(d, bound)` spoken lines before it is the
/// first spoken line of `d` whose number reaches `bound`.
pub proof fn law_offset_is_first_to_reach(d: DialogueView, bound: nat, i: int)
    ensures
        is_nth_text(d.lines, offset(d, bound), i) <==> (reaches(d, bound, i) && forall|j: int|
            0 <= j < i ==> !reaches(d, bound, j)),
{
    let n = offset(d, bound);
    if is_nth_text(d.lines, n, i) {
        assert forall|j: int| 0 <= j < i implies !reaches(d, bound, j) by {
            if d.lines[j].is_text() {
                lemma_text_order(d.lines, text_count(d.lines.take(j)), j, n, i);
            }
        }
    }
    if reaches(d, bound, i) && forall|j: int| 0 <= j < i ==> !reaches(d, bound, j) {
        let c = text_count(d.lines.take(i));
        if c > n {
            let front = d.lines.take(i);
            lemma_text_index(front, (c - 1) as nat);
            let j = text_index(front, (c - 1) as nat);
            assert(front.take(j) =~= d.lines.take(j));
            assert(reaches(d, bound, j));
        }
    }
}

/// A range that shares no line number with a speech leaves nothing of it.
pub proof fn law_disjoint_is_dropped(d: DialogueView, lo: nat, hi: nat)
    requires
        hi < d.start || d.stop < lo,
    ensures
        !selects(d, lo, hi),
        select_block(BlockView::Dialogue(d), lo, hi) is None,
        select_blocks(seq![BlockView::Dialogue(d)], lo, hi) == Seq::<BlockView>::empty(),
{
    let one = seq![BlockView::Dialogue(d)];
    assert(one.drop_last() =~= Seq::<BlockView>::empty());
    assert(select_blocks(one.drop_last(), lo, hi) =~= Seq::<BlockView>::empty());
    assert(select_blocks(one, lo, hi) =~= Seq::<BlockView>::empty());
}

/// A range that covers a whole speech leaves that speech as it is, with no
/// marker added, where the speech has as many spoken lines as its numbers
/// say and begins and ends with one.
pub proof fn law_covered_is_unchanged(d: DialogueView, lo: nat, hi: nat)
    requires
        d.wf(),
        text_at_both_ends(d),
        covers(d, lo, hi),
    ensures
        selects(d, lo, hi),
        selected(d, lo, hi) == d,
        selected(d, lo, hi).lines == d.lines,
{
    let n = d.lines.len() as int;
    let last = (d.stop - d.start) as nat;
    assert(d.lines.take(0) =~= Seq::<LineView>::empty());
    assert(is_nth_text(d.lines, 0, 0));
    assert(d.lines.take(n - 1) =~= d.lines.drop_last());
    assert(is_nth_text(d.lines, last, n - 1));
    lemma_text_index(d.lines, 0);
    lemma_text_index(d.lines, last);
    lemma_text_order(d.lines, 0, 0, 0, text_index(d.lines, 0));
    lemma_text_order(d.lines, last, n - 1, last, text_index(d.lines, last));
    assert(kept_lines(d, lo, hi) =~= d.lines);
    assert(selected(d, lo, hi).lines =~= d.lines);
}

/// What a range leaves of a speech is a run of the speech's own lines that
/// begins and ends with a spoken line, with one marker in front exactly
/// where the range starts after the speech does, and one marker behind
/// exactly where the range ends before the speech does.
pub proof fn law_markers_at_cut_ends(d: DialogueView, lo: nat, hi: nat)
    requires
        selects(d, lo, hi),
    ensures
        ({
            let out = selected(d, lo, hi).lines;
            let kept = kept_lines(d, lo, hi);
            let front: int = if lo > d.start {
                1
            } else {
                0
            };
            let back: int = if hi < d.stop {
                1
            } else {
                0
            };
            &&& kept.len() >= 1
            &&& kept.first().is_text()
            &&& kept.last().is_text()
            &&& text_count(kept) == offset(d, clip_hi(d, hi)) - offset(d, clip_lo(d, lo)) + 1
            &&& out.len() == front + kept.len() + back
            &&& out.subrange(front, front + kept.len()) == kept
            &&& lo > d.start ==> out.first() == ellipsis()
            &&& hi < d.stop ==> out.last() == ellipsis()
        }),
{
    let a = offset(d, clip_lo(d, lo));
    let b = offset(d, clip_hi(d, hi));
    lemma_text_index(d.lines, a);
    lemma_text_index(d.lines, b);
    let i = text_index(d.lines, a);
    let j = text_index(d.lines, b);
    lemma_text_order(d.lines, a, i, b, j);
    let kept = kept_lines(d, lo, hi);
    let out = selected(d, lo, hi).lines;
    let front: int = if lo > d.start {
        1
    } else {
        0
    };
    assert(out.subrange(front, front + kept.len()) =~= kept);
    lemma_text_count_range(d.lines, i, j + 1);
    assert(d.lines.take(j + 1).drop_last() =~= d.lines.take(j));
}

/// The spoken lines of a run are those before its end less those before
/// its start.
pub proof fn lemma_text_count_range(lines: Seq<LineView>, i: int, j: int)
    requires
        0 <= i <= j <= lines.len(),
    ensures
        text_count(lines.subrange(i, j)) == text_count(lines.take(j)) - text_count(lines.take(i)),
    decreases j - i,
{
    if i == j {
        assert(lines.subrange(i, j) =~= Seq::<LineView>::empty());
    } else {
        lemma_text_count_range(lines, i, j - 1);
        assert(lines.subrange(i, j).drop_last() =~= lines.subrange(i, j - 1));
        assert(lines.take(j).drop_last() =~= lines.take(j - 1));
    }
}

/// A range that covers every speech of a scene leaves all its speeches as
/// they are and in their order, and none of its headings, where each speech
/// has as many spoken lines as its numbers say and begins and ends with one.
pub proof fn law_full_range_keeps_dialogues(blocks: Seq<BlockView>, lo: nat, hi: nat)
    requires
        forall|i: int|
            0 <= i < blocks.len() ==> match #[trigger] blocks[i] {
                BlockView::Heading(_) => true,
                BlockView::Dialogue(d) => d.wf() && text_at_both_ends(d) && covers(d, lo, hi),
            },
    ensures
        select_blocks(blocks, lo, hi) == dialogues_of(blocks),
    decreases blocks.len(),
{
    reveal(Seq::filter);
    if blocks.len() > 0 {
        let front = blocks.drop_last();
        assert forall|i: int| 0 <= i < front.len() implies match #[trigger] front[i] {
            BlockView::Heading(_) => true,
            BlockView::Dialogue(d) => d.wf() && text_at_both_ends(d) && covers(d, lo, hi),
        } by {
            assert(front[i] == blocks[i]);
        }
        law_full_range_keeps_dialogues(front, lo, hi);
        match blocks.last() {
            BlockView::Heading(_) => {
                assert(select_blocks(blocks, lo, hi) =~= select_blocks(front, lo, hi));
            },
            BlockView::Dialogue(d) => {
                law_covered_is_unchanged(d, lo, hi);
            },
        }
    }
}

/// A range that shares no line number with any speech of a scene leaves
/// nothing of the scene.
pub proof fn law_disjoint_scene_is_empty(blocks: Seq<BlockView>, lo: nat, hi: nat)
    requires
        forall|i: int|
            0 <= i < blocks.len() ==> match #[trigger] blocks[i] {
                BlockView::Heading(_) => true,
                BlockView::Dialogue(d) => hi < d.start || d.stop < lo,
            },
    ensures
        select_blocks(blocks, lo, hi).len() == 0,
    decreases blocks.len(),
{
    if blocks.len() > 0 {
        let front = blocks.drop_last();
        assert forall|i: int| 0 <= i < front.len() implies match #[trigger] front[i] {
            BlockView::Heading(_) => true,
            BlockView::Dialogue(d) => hi < d.start || d.stop < lo,
        } by {
            assert(front[i] == blocks[i]);
        }
        law_disjoint_scene_is_empty(front, lo, hi);
        assert(select_block(blocks.last(), lo, hi) is None);
    }
}

/// Every scene of the table of contents has a place of its own in the flat
/// list of scenes.
pub proof fn law_scene_index_is_injective(act: nat, scene: nat, other_act: nat, other_scene: nat)
    requires
        scene_index(act, scene) is Some,
        scene_index(act, scene) == scene_index(other_act, other_scene),
    ensures
        act == other_act,
        scene == other_scene,
{
    reveal_with_fuel(scenes_before, 6);
}

/// The places of the table of contents are those of the flat list: each
/// lies below the number of scenes, and each place below it belongs to a
/// scene.
pub proof fn law_scene_index_fills_the_list(i: nat)
    ensures
        forall|act: nat, scene: nat|
            scene_index(act, scene) is Some ==> (#[trigger] scene_index(act, scene)).unwrap()
                < SCENES,
        i < SCENES ==> exists|act: nat, scene: nat| #[trigger] scene_index(act, scene) == Some(i),
{
    reveal_with_fuel(scenes_before, 6);
    if i < SCENES {
        let act: nat = if i < 5 {
            1
        } else if i < 9 {
            2
        } else if i < 16 {
            3
        } else if i < 23 {
            4
        } else {
            5
        };
        let scene = (i - scenes_before(act) + 1) as nat;
        assert(scene_index(act, scene) == Some(i));
    }
}

/// A number written in decimal digits reads back as itself.
pub proof fn law_decimal_reads_back(n: usize)
    ensures
        number_of(decimal(n as nat)) == Some(n),
{
    lemma_decimal_digits(n as nat);
}

/// The decimal digits of a number are digits, at least one, and stand for
/// that number.
pub proof fn lemma_decimal_digits(n: nat)
    ensures
        decimal(n).len() > 0,
        all_digits(decimal(n)),
        digits_value(decimal(n)) == n,
        unsigned_part(decimal(n)) == decimal(n),
    decreases n,
{
    if n < 10 {
        let one = seq![digit(n)];
        assert(one.drop_last() =~= Seq::<char>::empty());
        assert(decimal(n) =~= one);
        assert(digit_value(one[0]) == Some(n));
        assert(digits_value(one.drop_last()) == 0);
    } else {
        lemma_decimal_digits(n / 10);
        let front = decimal(n / 10);
        let all = decimal(n);
        assert(all =~= front + seq![digit(n % 10)]);
        assert(all.drop_last() =~= front);
        assert(all.last() == digit(n % 10));
        assert(all[0] == front[0]);
        assert(digit_value(front[0]) is Some);
        assert forall|i: int| 0 <= i < all.len() implies digit_value(#[trigger] all[i]) is Some by {
            if i < front.len() {
                assert(all[i] == front[i]);
            }
        }
    }
}

} // verus!
