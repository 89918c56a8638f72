//! Blocks as styled text.

use crate::layout::{align_right, decimal, decimal_text, right_aligned};
use crate::model::{
    blocks_view, dialogues_of, lines_view, Block, BlockView, Dialogue, DialogueView, Heading,
    HeadingView, Line, LineView,
};
use crate::style::{bold, bold_code, italic, italic_code, reset, reset_code};
use vstd::prelude::*;
use vstd::string::StringExecFns;

verus! {

/// A heading as text: act and scene in bold, the setting, and the staging
/// in italics after a blank line.
pub open spec fn heading_text(h: HeadingView) -> Seq<char> {
    bold_code() + h.act + ", "@ + h.scene + reset_code() + "\n"@ + h.setting + "\n\n\t"@
        + italic_code() + h.staging + reset_code() + "\n\n"@
}

/// One line of a speech as text. Spoken text is indented; a direction is
/// indented and in italics. A blank line parts speech from stage business:
/// it stands before spoken text that follows a direction, and before a
/// direction that does not follow one.
pub open spec fn line_text(after_direction: bool, line: LineView) -> Seq<char> {
    match line {
        LineView::Text(t) => if after_direction {
            "\n\t"@ + t + "\n"@
        } else {
            "\t"@ + t + "\n"@
        },
        LineView::Direction(d) => if after_direction {
            "\t"@ + italic_code() + d + reset_code() + "\n"@
        } else {
            "\n\t"@ + italic_code() + d + reset_code() + "\n"@
        },
    }
}

/// Whether `lines[i]` follows a direction.
pub open spec fn follows_direction(lines: Seq<LineView>, i: int) -> bool {
    0 < i <= lines.len() && !lines[i - 1].is_text()
}

/// The lines of a speech as text, one after the other.
pub open spec fn lines_text(lines: Seq<LineView>) -> Seq<char>
    decreases lines.len(),
{
    if lines.len() == 0 {
        Seq::empty()
    } else {
        lines_text(lines.drop_last()) + line_text(
            follows_direction(lines, lines.len() - 1),
            lines.last(),
        )
    }
}

/// A speech as text: the character's name in bold, the lines, and a blank
/// line.
pub open spec fn dialogue_text(d: DialogueView) -> Seq<char> {
    bold_code() + d.character + reset_code() + "\n"@ + lines_text(d.lines) + "\n"@
}

/// A block as text.
pub open spec fn block_text(b: BlockView) -> Seq<char> {
    match b {
        BlockView::Heading(h) => heading_text(h),
        BlockView::Dialogue(d) => dialogue_text(d),
    }
}

impl Heading {
    /// The heading as styled text.
    pub fn render(&self) -> (r: String)
        ensures
            r@ == heading_text(self@),
    {
        let mut out = bold();
        out.append(self.act.as_str());
        out.append(", ");
        out.append(self.scene.as_str());
        out.append(reset().as_str());
        out.append("\n");
        out.append(self.setting.as_str());
        out.append("\n\n\t");
        out.append(italic().as_str());
        out.append(self.staging.as_str());
        out.append(reset().as_str());
        out.append("\n\n");
        out
    }
}

/// Adds one line of a speech to `out`.
fn push_line(out: &mut String, after_direction: bool, line: &Line)
    ensures
        final(out)@ == old(out)@ + line_text(after_direction, line@),
{
    match line {
        Line::Text(t) => {
            if after_direction {
                out.append("\n\t");
            } else {
                out.append("\t");
            }
            out.append(t.as_str());
            out.append("\n");
        },
        Line::Direction(d) => {
            if after_direction {
                out.append("\t");
            } else {
                out.append("\n\t");
            }
            out.append(italic().as_str());
            out.append(d.as_str());
            out.append(reset().as_str());
            out.append("\n");
        },
    }
}

impl Dialogue {
    /// The speech as styled text.
    pub fn render(&self) -> (r: String)
        ensures
            r@ == dialogue_text(self@),
    {
        let mut out = bold();
        out.append(self.character.as_str());
        out.append(reset().as_str());
        out.append("\n");
        let ghost head = out@;
        let ghost v = lines_view(self.lines@);
        let mut after_direction = false;
        let mut i: usize = 0;
        while i < self.lines.len()
            invariant
                i <= self.lines.len(),
                v == lines_view(self.lines@),
                after_direction == follows_direction(v, i as int),
                out@ == head + lines_text(v.take(i as int)),
            decreases self.lines.len() - i,
        {
            proof {
                assert(v.take(i + 1).drop_last() =~= v.take(i as int));
                assert(follows_direction(v.take(i + 1), i as int) == follows_direction(v, i as int));
            }
            push_line(&mut out, after_direction, &self.lines[i]);
            after_direction = !self.lines[i].is_text();
            i += 1;
        }
        proof {
            assert(v.take(i as int) =~= v);
        }
        out.append("\n");
        out
    }
}

impl Block {
    /// The block as styled text.
    pub fn render(&self) -> (r: String)
        ensures
            r@ == block_text(self@),
    {
        match self {
            Block::Heading(h) => h.render(),
            Block::Dialogue(d) => d.render(),
        }
    }
}

/// The width of the field at whose right the citation stands.
pub const CITATION_WIDTH: usize = 80;

/// Where an excerpt is from: the play's short name in italics, then act,
/// scene and first line of the first speech, and the last line of the last
/// speech. `None` where the blocks hold no speech.
pub open spec fn citation(blocks: Seq<BlockView>) -> Option<Seq<char>> {
    let speeches = dialogues_of(blocks);
    if speeches.len() == 0 {
        None
    } else {
        let first = speeches.first()->Dialogue_0;
        let last = speeches.last()->Dialogue_0;
        Some(
            "("@ + italic_code() + "Lr."@ + reset_code() + " "@ + decimal(first.act) + "."@
                + decimal(first.scene) + "."@ + decimal(first.start) + "-"@ + decimal(last.stop)
                + ")"@,
        )
    }
}

/// Blocks as text, one after the other.
pub open spec fn blocks_text(blocks: Seq<BlockView>) -> Seq<char>
    decreases blocks.len(),
{
    if blocks.len() == 0 {
        Seq::empty()
    } else {
        blocks_text(blocks.drop_last()) + block_text(blocks.last())
    }
}

/// An excerpt as it is shown: its blocks, and below them, where it holds a
/// speech, the citation at the right of its field, on a line of its own.
pub open spec fn excerpt_text(blocks: Seq<BlockView>) -> Seq<char> {
    blocks_text(blocks) + match citation(blocks) {
        Some(c) => right_aligned(c, CITATION_WIDTH as nat) + "\n"@,
        None => Seq::empty(),
    }
}

/// The speeches among the blocks, in order.
fn dialogues(blocks: &[Block]) -> (r: Vec<&Dialogue>)
    ensures
        r@.len() == dialogues_of(blocks_view(blocks@)).len(),
        forall|i: int|
            0 <= i < r@.len() ==> BlockView::Dialogue((#[trigger] r@[i])@) == dialogues_of(
                blocks_view(blocks@),
            )[i],
{
    let ghost v = blocks_view(blocks@);
    let mut out: Vec<&Dialogue> = Vec::new();
    let mut i: usize = 0;
    while i < blocks.len()
        invariant
            i <= blocks.len(),
            v == blocks_view(blocks@),
            out@.len() == dialogues_of(v.take(i as int)).len(),
            forall|k: int|
                0 <= k < out@.len() ==> BlockView::Dialogue((#[trigger] out@[k])@) == dialogues_of(
                    v.take(i as int),
                )[k],
        decreases blocks.len() - i,
    {
        proof {
            reveal(Seq::filter);
            assert(v.take(i + 1).drop_last() =~= v.take(i as int));
        }
        match &blocks[i] {
            Block::Heading(_) => {},
            Block::Dialogue(d) => {
                out.push(d);
            },
        }
        i += 1;
    }
    proof {
        assert(v.take(i as int) =~= v);
    }
    out
}

/// Where an excerpt is from, if it holds a speech.
pub fn attribution(blocks: &[Block]) -> (r: Option<String>)
    ensures
        match citation(blocks_view(blocks@)) {
            Some(c) => r is Some && r.unwrap()@ == c,
            None => r is None,
        },
{
    let speeches = dialogues(blocks);
    if speeches.len() == 0 {
        return None;
    }
    let first = speeches[0];
    let last = speeches[speeches.len() - 1];
    let mut out = String::from_str("(");
    out.append(italic().as_str());
    out.append("Lr.");
    out.append(reset().as_str());
    out.append(" ");
    out.append(decimal_text(first.act).as_str());
    out.append(".");
    out.append(decimal_text(first.scene).as_str());
    out.append(".");
    out.append(decimal_text(first.start).as_str());
    out.append("-");
    out.append(decimal_text(last.stop).as_str());
    out.append(")");
    Some(out)
}

/// An excerpt as it is shown: its blocks as styled text, and the citation
/// where there is one.
pub fn rendering(blocks: &[Block]) -> (r: String)
    ensures
        r@ == excerpt_text(blocks_view(blocks@)),
{
    let ghost v = blocks_view(blocks@);
    let cited = attribution(blocks);
    let mut out = String::new();
    let mut i: usize = 0;
    while i < blocks.len()
        invariant
            i <= blocks.len(),
            v == blocks_view(blocks@),
            out@ == blocks_text(v.take(i as int)),
        decreases blocks.len() - i,
    {
        proof {
            assert(v.take(i + 1).drop_last() =~= v.take(i as int));
        }
        out.append(blocks[i].render().as_str());
        i += 1;
    }
    proof {
        assert(v.take(i as int) =~= v);
    }
    match cited {
        Some(c) => {
            out.append(align_right(c.as_str(), CITATION_WIDTH).as_str());
            out.append("\n");
        },
        None => {
            assert(out@ =~= excerpt_text(v));
        },
    }
    out
}

} // verus!
