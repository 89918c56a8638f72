//! The blocks that make up a scene, and their mathematical views.

use vstd::prelude::*;

verus! {

/// One line of a speech: spoken text, which is numbered, or a stage
/// direction, which is not.
#[derive(Debug, PartialEq, Eq)]
pub enum Line {
    Text(String),
    Direction(String),
}

/// What a [`Line`] holds, as a value of specifications.
pub enum LineView {
    Text(Seq<char>),
    Direction(Seq<char>),
}

impl LineView {
    /// Whether the line is spoken text.
    pub open spec fn is_text(self) -> bool {
        self is Text
    }
}

impl View for Line {
    type V = LineView;

    open spec fn view(&self) -> LineView {
        match self {
            Line::Text(s) => LineView::Text(s@),
            Line::Direction(s) => LineView::Direction(s@),
        }
    }
}

impl Clone for Line {
    fn clone(&self) -> (r: Self)
        ensures
            r@ == self@,
    {
        match self {
            Line::Text(s) => Line::Text(s.clone()),
            Line::Direction(s) => Line::Direction(s.clone()),
        }
    }
}

impl Line {
    /// Whether the line is spoken text.
    pub fn is_text(&self) -> (r: bool)
        ensures
            r == self@.is_text(),
    {
        match self {
            Line::Text(_) => true,
            Line::Direction(_) => false,
        }
    }
}

/// The views of a sequence of lines, in order.
pub open spec fn lines_view(lines: Seq<Line>) -> Seq<LineView> {
    Seq::new(lines.len(), |i: int| lines[i]@)
}

/// The number of spoken lines in a sequence of lines.
pub open spec fn text_count(lines: Seq<LineView>) -> nat
    decreases lines.len(),
{
    if lines.len() == 0 {
        0
    } else {
        text_count(lines.drop_last()) + if lines.last().is_text() {
            1nat
        } else {
            0nat
        }
    }
}

/// The block that opens a scene: where and how it begins.
#[derive(Debug, PartialEq, Eq)]
pub struct Heading {
    pub act: String,
    pub scene: String,
    pub setting: String,
    pub staging: String,
}

/// What a [`Heading`] holds, as a value of specifications.
pub struct HeadingView {
    pub act: Seq<char>,
    pub scene: Seq<char>,
    pub setting: Seq<char>,
    pub staging: Seq<char>,
}

impl View for Heading {
    type V = HeadingView;

    open spec fn view(&self) -> HeadingView {
        HeadingView {
            act: self.act@,
            scene: self.scene@,
            setting: self.setting@,
            staging: self.staging@,
        }
    }
}

impl Clone for Heading {
    fn clone(&self) -> (r: Self)
        ensures
            r@ == self@,
    {
        Heading {
            act: self.act.clone(),
            scene: self.scene.clone(),
            setting: self.setting.clone(),
            staging: self.staging.clone(),
        }
    }
}

/// One character's speech: its lines, and the numbers `start..=stop` of the
/// spoken lines among them.
#[derive(Debug, PartialEq, Eq)]
pub struct Dialogue {
    pub character: String,
    pub lines: Vec<Line>,
    pub act: usize,
    pub scene: usize,
    pub start: usize,
    pub stop: usize,
}

/// What a [`Dialogue`] holds, as a value of specifications.
pub struct DialogueView {
    pub character: Seq<char>,
    pub lines: Seq<LineView>,
    pub act: nat,
    pub scene: nat,
    pub start: nat,
    pub stop: nat,
}

impl DialogueView {
    /// The speech has as many spoken lines as its numbers say.
    pub open spec fn wf(self) -> bool {
        self.start <= self.stop && text_count(self.lines) == self.stop - self.start + 1
    }
}

impl View for Dialogue {
    type V = DialogueView;

    open spec fn view(&self) -> DialogueView {
        DialogueView {
            character: self.character@,
            lines: lines_view(self.lines@),
            act: self.act as nat,
            scene: self.scene as nat,
            start: self.start as nat,
            stop: self.stop as nat,
        }
    }
}

/// Copies `lines[from..to]`.
pub fn copy_lines(lines: &Vec<Line>, from: usize, to: usize) -> (r: Vec<Line>)
    requires
        from <= to <= lines.len(),
    ensures
        lines_view(r@) == lines_view(lines@).subrange(from as int, to as int),
{
    let mut out: Vec<Line> = Vec::new();
    let mut i: usize = from;
    while i < to
        invariant
            from <= i <= to <= lines.len(),
            out.len() == i - from,
            forall|k: int| 0 <= k < out.len() ==> (#[trigger] out[k])@ == lines[from + k]@,
        decreases to - i,
    {
        out.push(lines[i].clone());
        i += 1;
    }
    assert(lines_view(out@) =~= lines_view(lines@).subrange(from as int, to as int));
    out
}

impl Clone for Dialogue {
    fn clone(&self) -> (r: Self)
        ensures
            r@ == self@,
    {
        let lines = copy_lines(&self.lines, 0, self.lines.len());
        assert(lines_view(self.lines@).subrange(0, self.lines.len() as int) =~= lines_view(
            self.lines@,
        ));
        Dialogue {
            character: self.character.clone(),
            lines,
            act: self.act,
            scene: self.scene,
            start: self.start,
            stop: self.stop,
        }
    }
}

/// The smallest unit of a scene that is shown.
#[derive(Debug, PartialEq, Eq)]
pub enum Block {
    Heading(Heading),
    Dialogue(Dialogue),
}

/// What a [`Block`] holds, as a value of specifications.
pub enum BlockView {
    Heading(HeadingView),
    Dialogue(DialogueView),
}

impl View for Block {
    type V = BlockView;

    open spec fn view(&self) -> BlockView {
        match self {
            Block::Heading(h) => BlockView::Heading(h@),
            Block::Dialogue(d) => BlockView::Dialogue(d@),
        }
    }
}

impl Clone for Block {
    fn clone(&self) -> (r: Self)
        ensures
            r@ == self@,
    {
        match self {
            Block::Heading(h) => Block::Heading(h.clone()),
            Block::Dialogue(d) => Block::Dialogue(d.clone()),
        }
    }
}

/// The views of a sequence of blocks, in order.
pub open spec fn blocks_view(blocks: Seq<Block>) -> Seq<BlockView> {
    Seq::new(blocks.len(), |i: int| blocks[i]@)
}

/// The speeches among the blocks, in order, without the headings.
pub open spec fn dialogues_of(blocks: Seq<BlockView>) -> Seq<BlockView> {
    blocks.filter(|b: BlockView| b is Dialogue)
}

} // verus!
