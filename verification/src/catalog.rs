//! The table of contents as it is shown: a title, and one row for each
//! scene with its act, its number and how many lines it has.

use crate::contents::{scene_index, scenes_before, scenes_in, table_entry, ACTS, SCENES};
use crate::layout::{center, centered, decimal, decimal_text};
use crate::style::{bold, bold_code, italic, italic_code, reset, reset_code};
use vstd::prelude::*;
use vstd::string::StringExecFns;

verus! {

/// The width of the title, and of a row.
pub const TABLE_WIDTH: usize = 19;

/// The width of the column of acts.
pub const ACT_WIDTH: usize = 5;

/// The width of the column of scenes, and of that of line counts.
pub const COLUMN_WIDTH: usize = 7;

/// How many lines the scene at place `i` of the flat list has.
pub open spec fn line_count(i: nat) -> nat {
    if i == 0 {
        332
    } else if i == 1 {
        191
    } else if i == 2 {
        27
    } else if i == 3 {
        352
    } else if i == 4 {
        48
    } else if i == 5 {
        141
    } else if i == 6 {
        177
    } else if i == 7 {
        21
    } else if i == 8 {
        339
    } else if i == 9 {
        58
    } else if i == 10 {
        100
    } else if i == 11 {
        25
    } else if i == 12 {
        187
    } else if i == 13 {
        25
    } else if i == 14 {
        117
    } else if i == 15 {
        118
    } else if i == 16 {
        90
    } else if i == 17 {
        111
    } else if i == 18 {
        62
    } else if i == 19 {
        32
    } else if i == 20 {
        45
    } else if i == 21 {
        314
    } else if i == 22 {
        110
    } else if i == 23 {
        78
    } else if i == 24 {
        13
    } else {
        386
    }
}

/// The act of the scene at place `i` of the flat list.
pub open spec fn act_at(i: nat) -> nat {
    if i < scenes_before(2) {
        1
    } else if i < scenes_before(3) {
        2
    } else if i < scenes_before(4) {
        3
    } else if i < scenes_before(5) {
        4
    } else {
        5
    }
}

/// The number, within its act, of the scene at place `i` of the flat list.
pub open spec fn scene_at(i: nat) -> nat {
    (i - scenes_before(act_at(i)) + 1) as nat
}

/// One scene of the table of contents.
#[derive(Debug, Clone, Copy, PartialEq, Eq)]
pub struct SceneEntry {
    pub act: usize,
    pub scene: usize,
    pub lines: usize,
}

/// How many lines the scene at place `i` of the flat list has.
pub fn lines_at(i: usize) -> (r: usize)
    requires
        i < SCENES,
    ensures
        r == line_count(i as nat),
{
    if i < 13 {
        if i == 0 {
            332
        } else if i == 1 {
            191
        } else if i == 2 {
            27
        } else if i == 3 {
            352
        } else if i == 4 {
            48
        } else if i == 5 {
            141
        } else if i == 6 {
            177
        } else if i == 7 {
            21
        } else if i == 8 {
            339
        } else if i == 9 {
            58
        } else if i == 10 {
            100
        } else if i == 11 {
            25
        } else {
            187
        }
    } else if i == 13 {
        25
    } else if i == 14 {
        117
    } else if i == 15 {
        118
    } else if i == 16 {
        90
    } else if i == 17 {
        111
    } else if i == 18 {
        62
    } else if i == 19 {
        32
    } else if i == 20 {
        45
    } else if i == 21 {
        314
    } else if i == 22 {
        110
    } else if i == 23 {
        78
    } else if i == 24 {
        13
    } else {
        386
    }
}

/// The scene at place `i` of the flat list: the act and scene that the
/// table of contents sends to that place, and its number of lines.
pub fn entry_at(i: usize) -> (r: SceneEntry)
    requires
        i < SCENES,
    ensures
        scene_index(r.act as nat, r.scene as nat) == Some(i as nat),
        r.act == act_at(i as nat),
        r.scene == scene_at(i as nat),
        r.lines == line_count(i as nat),
{
    reveal_with_fuel(scenes_before, 6);
    let mut act: usize = 1;
    let mut start: usize = 0;
    loop
        invariant
            1 <= act <= ACTS,
            start == scenes_before(act as nat),
            start <= i < SCENES,
        ensures
            1 <= act <= ACTS,
            start == scenes_before(act as nat),
            start <= i < start + scenes_in(act as nat),
        decreases ACTS - act,
    {
        reveal_with_fuel(scenes_before, 6);
        let entry = table_entry(act).unwrap();
        let end: usize = *entry.scenes.end();
        if i < entry.start + end {
            break ;
        }
        start = entry.start + end;
        act += 1;
    }
    SceneEntry { act, scene: i - start + 1, lines: lines_at(i) }
}

/// The title above the table, and the table's head.
pub open spec fn title_text() -> Seq<char> {
    italic_code() + centered("The Tragedie of"@, TABLE_WIDTH as nat, ' ') + reset_code() + "\n"@
        + centered("KING LEAR"@, TABLE_WIDTH as nat, ' ') + "\n\n"@ + centered(
        "by"@,
        TABLE_WIDTH as nat,
        ' ',
    ) + "\n\n"@ + italic_code() + centered("William"@, TABLE_WIDTH as nat, ' ') + italic_code()
        + "\n"@ + italic_code() + centered("Shakespeare"@, TABLE_WIDTH as nat, ' ')
        + italic_code() + "\n\n"@ + bold_code() + centered("Act"@, ACT_WIDTH as nat, ' ')
        + centered("Scene"@, COLUMN_WIDTH as nat, ' ') + centered(
        "Lines"@,
        COLUMN_WIDTH as nat,
        ' ',
    ) + reset_code() + "\n"@
}

/// The row of the scene at place `i` of the flat list. The first scene of
/// an act stands below a rule and names its act; the others leave the
/// act's column empty.
pub open spec fn row_text(i: nat) -> Seq<char> {
    (if scene_at(i) == 1 {
        centered(Seq::empty(), TABLE_WIDTH as nat, '-') + "\n"@ + centered(
            decimal(act_at(i)),
            ACT_WIDTH as nat,
            ' ',
        )
    } else {
        centered(Seq::empty(), ACT_WIDTH as nat, ' ')
    }) + centered(decimal(scene_at(i)), COLUMN_WIDTH as nat, ' ') + centered(
        decimal(line_count(i)),
        COLUMN_WIDTH as nat,
        ' ',
    ) + "\n"@
}

/// The rows of the first `n` scenes of the flat list.
pub open spec fn rows_text(n: nat) -> Seq<char>
    decreases n,
{
    if n == 0 {
        Seq::empty()
    } else {
        rows_text((n - 1) as nat) + row_text((n - 1) as nat)
    }
}

/// The table of contents as it is shown.
pub open spec fn contents() -> Seq<char> {
    title_text() + rows_text(SCENES as nat)
}

/// Adds the row of the scene at place `i` to `out`.
fn push_row(out: &mut String, i: usize)
    requires
        i < SCENES,
    ensures
        final(out)@ == old(out)@ + row_text(i as nat),
{
    proof {
        reveal_strlit(" ");
        reveal_strlit("-");
        reveal_strlit("");
    }
    let entry = entry_at(i);
    assert(""@ =~= Seq::<char>::empty());
    if entry.scene == 1 {
        out.append(center("", TABLE_WIDTH, "-").as_str());
        out.append("\n");
        out.append(center(decimal_text(entry.act).as_str(), ACT_WIDTH, " ").as_str());
    } else {
        out.append(center("", ACT_WIDTH, " ").as_str());
    }
    out.append(center(decimal_text(entry.scene).as_str(), COLUMN_WIDTH, " ").as_str());
    out.append(center(decimal_text(entry.lines).as_str(), COLUMN_WIDTH, " ").as_str());
    out.append("\n");
}

/// The table of contents as it is shown: the title, the table's head, and
/// a row for each scene.
pub fn contents_text() -> (r: String)
    ensures
        r@ == contents(),
{
    proof {
        reveal_strlit(" ");
    }
    let mut out = italic();
    out.append(center("The Tragedie of", TABLE_WIDTH, " ").as_str());
    out.append(reset().as_str());
    out.append("\n");
    out.append(center("KING LEAR", TABLE_WIDTH, " ").as_str());
    out.append("\n\n");
    out.append(center("by", TABLE_WIDTH, " ").as_str());
    out.append("\n\n");
    out.append(italic().as_str());
    out.append(center("William", TABLE_WIDTH, " ").as_str());
    out.append(italic().as_str());
    out.append("\n");
    out.append(italic().as_str());
    out.append(center("Shakespeare", TABLE_WIDTH, " ").as_str());
    out.append(italic().as_str());
    out.append("\n\n");
    out.append(bold().as_str());
    out.append(center("Act", ACT_WIDTH, " ").as_str());
    out.append(center("Scene", COLUMN_WIDTH, " ").as_str());
    out.append(center("Lines", COLUMN_WIDTH, " ").as_str());
    out.append(reset().as_str());
    out.append("\n");
    assert(out@ == title_text());
    let mut i: usize = 0;
    while i < SCENES
        invariant
            i <= SCENES,
            out@ == title_text() + rows_text(i as nat),
        decreases SCENES - i,
    {
        push_row(&mut out, i);
        i += 1;
    }
    out
}

} // verus!
