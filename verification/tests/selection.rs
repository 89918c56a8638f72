use lear::{find_text, select, Block, Dialogue, Heading, Line};

fn spoken(s: &str) -> Line {
    Line::Text(s.to_string())
}

fn staged(s: &str) -> Line {
    Line::Direction(s.to_string())
}

fn speech(character: &str, start: usize, lines: Vec<Line>) -> Dialogue {
    let count = lines.iter().filter(|l| matches!(l, Line::Text(_))).count();
    Dialogue {
        character: character.to_string(),
        lines,
        act: 1,
        scene: 2,
        start,
        stop: start + count - 1,
    }
}

fn numbered(character: &str, start: usize, stop: usize) -> Dialogue {
    speech(character, start, (start..=stop).map(|n| spoken(&format!("line {}", n))).collect())
}

fn opening() -> Heading {
    Heading {
        act: "ACT 1".to_string(),
        scene: "SCENE 2".to_string(),
        setting: "A hall.".to_string(),
        staging: "Enter all.".to_string(),
    }
}

#[test]
fn range_inside_a_speech_is_marked_at_both_ends() {
    let d = numbered("LEAR", 10, 20);
    let got = d.selection(&(12..=15)).unwrap();
    let expected = Dialogue {
        character: "LEAR".to_string(),
        lines: vec![
            spoken("..."),
            spoken("line 12"),
            spoken("line 13"),
            spoken("line 14"),
            spoken("line 15"),
            spoken("..."),
        ],
        act: 1,
        scene: 2,
        start: 12,
        stop: 15,
    };
    assert_eq!(got, expected);
}

#[test]
fn single_speech_scene_yields_one_block() {
    let scene = vec![Block::Dialogue(numbered("LEAR", 10, 20))];
    let got = select(&scene, &(12..=15)).unwrap();
    assert_eq!(got.len(), 1);
    match &got[0] {
        Block::Dialogue(d) => {
            assert_eq!(d.lines.len(), 6);
            assert_eq!(d.lines[0], spoken("..."));
            assert_eq!(d.lines[1], spoken("line 12"));
            assert_eq!(d.lines[4], spoken("line 15"));
            assert_eq!(d.lines[5], spoken("..."));
            assert_eq!((d.start, d.stop), (12, 15));
        }
        Block::Heading(_) => panic!("a heading was selected"),
    }
}

#[test]
fn disjoint_range_drops_the_speech() {
    let d = numbered("KENT", 10, 20);
    assert_eq!(d.selection(&(1..=9)), None);
    assert_eq!(d.selection(&(21..=30)), None);
    assert_eq!(d.selection(&(0..=0)), None);
    assert!(d.selection(&(9..=10)).is_some());
    assert!(d.selection(&(20..=21)).is_some());
}

#[test]
fn covering_range_leaves_the_speech_unchanged() {
    let d = speech(
        "FOOL",
        5,
        vec![spoken("a"), staged("Sings."), spoken("b"), spoken("c")],
    );
    assert_eq!(d.selection(&(5..=7)), Some(d.clone()));
    assert_eq!(d.selection(&(1..=100)), Some(d.clone()));
    assert_eq!(d.selection(&(0..=usize::MAX)), Some(d.clone()));
}

#[test]
fn marker_only_at_the_cut_end() {
    let d = numbered("EDGAR", 10, 12);
    let head = d.selection(&(1..=11)).unwrap();
    assert_eq!(head.lines, vec![spoken("line 10"), spoken("line 11"), spoken("...")]);
    assert_eq!((head.start, head.stop), (10, 11));
    let tail = d.selection(&(11..=99)).unwrap();
    assert_eq!(tail.lines, vec![spoken("..."), spoken("line 11"), spoken("line 12")]);
    assert_eq!((tail.start, tail.stop), (11, 12));
    let one = d.selection(&(11..=11)).unwrap();
    assert_eq!(one.lines, vec![spoken("..."), spoken("line 11"), spoken("...")]);
    assert_eq!((one.start, one.stop), (11, 11));
}

#[test]
fn directions_are_not_numbered() {
    let d = speech(
        "LEAR",
        10,
        vec![spoken("a"), staged("x"), spoken("b"), staged("y"), spoken("c")],
    );
    assert_eq!((d.start, d.stop), (10, 12));
    let last = d.selection(&(12..=12)).unwrap();
    assert_eq!(last.lines, vec![spoken("..."), spoken("c")]);
    let middle = d.selection(&(11..=11)).unwrap();
    assert_eq!(middle.lines, vec![spoken("..."), spoken("b"), spoken("...")]);
    let front = d.selection(&(10..=11)).unwrap();
    assert_eq!(front.lines, vec![spoken("a"), staged("x"), spoken("b"), spoken("...")]);
    let back = d.selection(&(11..=12)).unwrap();
    assert_eq!(back.lines, vec![spoken("..."), spoken("b"), staged("y"), spoken("c")]);
}

#[test]
fn directions_outside_the_spoken_lines_are_left_out() {
    let d = speech("GLOUCESTER", 1, vec![staged("Aside."), spoken("a"), staged("Exit.")]);
    let got = d.selection(&(1..=1)).unwrap();
    assert_eq!(got.lines, vec![spoken("a")]);
    assert_eq!((got.start, got.stop), (1, 1));
}

#[test]
fn speech_without_a_line_for_the_bound_is_dropped() {
    let d = Dialogue {
        character: "OSWALD".to_string(),
        lines: vec![spoken("a"), staged("He waits."), staged("He goes.")],
        act: 1,
        scene: 2,
        start: 1,
        stop: 3,
    };
    assert_eq!(d.selection(&(2..=3)), None);
    assert_eq!(d.selection(&(1..=3)), None);
    let first = d.selection(&(1..=1)).unwrap();
    assert_eq!(first.lines, vec![spoken("a"), spoken("...")]);
}

#[test]
fn inverted_range_selects_nothing() {
    let d = numbered("REGAN", 10, 20);
    assert_eq!(d.selection(&(15..=12)), None);
    assert_eq!(d.selection(&(13..=12)), None);
}

#[test]
fn speech_with_inverted_numbers_keeps_its_first_line() {
    let d = Dialogue {
        character: "CURAN".to_string(),
        lines: vec![staged("Enter"), spoken("a"), spoken("b")],
        act: 1,
        scene: 2,
        start: 10,
        stop: 5,
    };
    let got = d.selection(&(3..=12)).unwrap();
    assert_eq!(got.lines, vec![spoken("a")]);
    assert_eq!((got.start, got.stop), (10, 5));
    assert_eq!(d.selection(&(6..=9)), None);
}

#[test]
fn heading_is_never_selected() {
    let h = Block::Heading(opening());
    assert_eq!(h.selection(&(0..=usize::MAX)), None);
    let d = Block::Dialogue(numbered("LEAR", 1, 3));
    assert_eq!(d.selection(&(1..=3)), Some(d.clone()));
    assert_eq!(d.selection(&(4..=9)), None);
}

#[test]
fn full_range_keeps_every_speech_and_no_heading() {
    let a = numbered("KENT", 1, 4);
    let b = speech("GLOUCESTER", 5, vec![spoken("x"), staged("Reads."), spoken("y")]);
    let c = numbered("EDMUND", 7, 7);
    let scene = vec![
        Block::Heading(opening()),
        Block::Dialogue(a.clone()),
        Block::Dialogue(b.clone()),
        Block::Dialogue(c.clone()),
    ];
    let got = select(&scene, &(1..=7)).unwrap();
    assert_eq!(got, vec![Block::Dialogue(a), Block::Dialogue(b), Block::Dialogue(c)]);
}

#[test]
fn range_across_speeches_cuts_the_outer_ones() {
    let scene = vec![
        Block::Heading(opening()),
        Block::Dialogue(numbered("KENT", 1, 4)),
        Block::Dialogue(numbered("GLOUCESTER", 5, 6)),
        Block::Dialogue(numbered("EDMUND", 7, 9)),
        Block::Dialogue(numbered("KENT", 10, 12)),
    ];
    let got = select(&scene, &(4..=7)).unwrap();
    assert_eq!(got.len(), 3);
    let mut first = numbered("KENT", 4, 4);
    first.lines.insert(0, spoken("..."));
    let mut last = numbered("EDMUND", 7, 7);
    last.lines.push(spoken("..."));
    assert_eq!(got[0], Block::Dialogue(first));
    assert_eq!(got[1], Block::Dialogue(numbered("GLOUCESTER", 5, 6)));
    assert_eq!(got[2], Block::Dialogue(last));
}

#[test]
fn range_in_a_gap_selects_nothing() {
    let scene = vec![
        Block::Heading(opening()),
        Block::Dialogue(numbered("KENT", 1, 5)),
        Block::Dialogue(numbered("EDMUND", 10, 15)),
    ];
    assert_eq!(select(&scene, &(7..=8)), None);
    assert_eq!(select(&scene, &(16..=20)), None);
    assert_eq!(select(&Vec::new(), &(1..=5)), None);
    assert_eq!(select(&vec![Block::Heading(opening())], &(1..=5)), None);
}

#[test]
fn find_text_counts_spoken_lines_only() {
    let lines = vec![staged("x"), spoken("a"), staged("y"), spoken("b"), spoken("c")];
    assert_eq!(find_text(&lines, 0), Some(1));
    assert_eq!(find_text(&lines, 1), Some(3));
    assert_eq!(find_text(&lines, 2), Some(4));
    assert_eq!(find_text(&lines, 3), None);
    assert_eq!(find_text(&Vec::new(), 0), None);
    assert_eq!(find_text(&vec![staged("x")], 0), None);
}

#[test]
fn clone_keeps_every_field() {
    let d = speech("LEAR", 3, vec![spoken("a"), staged("x"), spoken("b")]);
    let c = d.clone();
    assert_eq!(c, d);
    assert_eq!(Block::Heading(opening()).clone(), Block::Heading(opening()));
    assert!(spoken("a").is_text());
    assert!(!staged("a").is_text());
}
