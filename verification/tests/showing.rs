use lear::layout::{align_right, center, decimal_text};
use lear::{attribution, contents_text, entry_at, rendering, Block, Dialogue, Heading, Line, SceneEntry};

const BOLD: &str = "\x1b[1m";
const ITALIC: &str = "\x1b[3m";
const RESET: &str = "\x1b[m";

fn verse(s: &str) -> Line {
    Line::Text(s.to_string())
}

fn business(s: &str) -> Line {
    Line::Direction(s.to_string())
}

fn part(character: &str, act: usize, scene: usize, start: usize, stop: usize, lines: Vec<Line>) -> Dialogue {
    Dialogue { character: character.to_string(), lines, act, scene, start, stop }
}

fn heath() -> Heading {
    Heading {
        act: "ACT 3".to_string(),
        scene: "SCENE 2".to_string(),
        setting: "Another part of the heath.".to_string(),
        staging: "Enter LEAR and FOOL".to_string(),
    }
}

#[test]
fn heading_renders_label_setting_and_staging() {
    assert_eq!(
        heath().render(),
        "\x1b[1mACT 3, SCENE 2\x1b[m\nAnother part of the heath.\n\n\t\x1b[3mEnter LEAR and FOOL\x1b[m\n\n"
    );
}

#[test]
fn speech_renders_name_and_indented_lines() {
    let d = part("LEAR", 3, 2, 1, 2, vec![verse("Blow, winds,"), verse("and crack your cheeks!")]);
    assert_eq!(
        d.render(),
        "\x1b[1mLEAR\x1b[m\n\tBlow, winds,\n\tand crack your cheeks!\n\n"
    );
}

#[test]
fn blank_line_parts_speech_from_stage_business() {
    let d = part(
        "FOOL",
        3,
        2,
        10,
        12,
        vec![
            business("Aside"),
            verse("a"),
            verse("b"),
            business("Sings"),
            business("Dances"),
            verse("c"),
        ],
    );
    let expected = format!(
        "{b}FOOL{r}\n\n\t{i}Aside{r}\n\n\ta\n\tb\n\n\t{i}Sings{r}\n\t{i}Dances{r}\n\n\tc\n\n",
        b = BOLD,
        i = ITALIC,
        r = RESET
    );
    assert_eq!(d.render(), expected);
}

#[test]
fn speech_without_lines_renders_its_name() {
    let d = part("KENT", 1, 1, 1, 1, Vec::new());
    assert_eq!(d.render(), "\x1b[1mKENT\x1b[m\n\n");
}

#[test]
fn block_renders_as_what_it_holds() {
    assert_eq!(Block::Heading(heath()).render(), heath().render());
    let d = part("LEAR", 3, 2, 1, 1, vec![verse("Blow, winds,")]);
    assert_eq!(Block::Dialogue(d.clone()).render(), d.render());
}

#[test]
fn citation_names_first_and_last_speech() {
    let blocks = vec![
        Block::Heading(heath()),
        Block::Dialogue(part("LEAR", 3, 2, 1, 9, vec![verse("a")])),
        Block::Dialogue(part("FOOL", 3, 2, 10, 13, vec![verse("b")])),
        Block::Dialogue(part("LEAR", 3, 2, 14, 24, vec![verse("c")])),
    ];
    assert_eq!(attribution(&blocks), Some("(\x1b[3mLr.\x1b[m 3.2.1-24)".to_string()));
}

#[test]
fn citation_of_one_speech_is_its_own_range() {
    let blocks = vec![Block::Dialogue(part("EDGAR", 4, 6, 120, 131, vec![verse("a")]))];
    assert_eq!(attribution(&blocks), Some("(\x1b[3mLr.\x1b[m 4.6.120-131)".to_string()));
}

#[test]
fn no_citation_without_a_speech() {
    assert_eq!(attribution(&[]), None);
    assert_eq!(attribution(&[Block::Heading(heath())]), None);
    assert_eq!(rendering(&[]), "");
    assert_eq!(rendering(&[Block::Heading(heath())]), heath().render());
}

#[test]
fn excerpt_ends_with_the_citation_at_the_right() {
    let d = part("LEAR", 3, 2, 1, 2, vec![verse("Blow, winds,"), verse("and crack your cheeks!")]);
    let blocks = vec![Block::Heading(heath()), Block::Dialogue(d.clone())];
    let cite = "(\x1b[3mLr.\x1b[m 3.2.1-2)";
    let expected = format!("{}{}{: >80}\n", heath().render(), d.render(), cite);
    let got = rendering(&blocks);
    assert_eq!(got, expected);
    let last = got.lines().last().unwrap();
    assert_eq!(last.chars().count(), 80);
    assert!(last.ends_with(cite));
}

#[test]
fn citation_of_a_full_scene_matches_its_first_and_last_speech() {
    let first = part("KENT", 1, 1, 1, 7, (1..=7).map(|n| verse(&n.to_string())).collect());
    let last = part("GONERIL", 1, 1, 8, 332, (8..=332).map(|n| verse(&n.to_string())).collect());
    let scene = vec![
        Block::Heading(heath()),
        Block::Dialogue(first.clone()),
        Block::Dialogue(last.clone()),
    ];
    let got = lear::select(&scene, &(1..=332)).unwrap();
    let cite = attribution(&got).unwrap();
    assert_eq!(
        cite,
        format!("(\x1b[3mLr.\x1b[m {}.{}.{}-{})", first.act, first.scene, first.start, last.stop)
    );
    assert_eq!(cite, "(\x1b[3mLr.\x1b[m 1.1.1-332)");
}

#[test]
fn decimal_text_is_the_number_in_digits() {
    assert_eq!(decimal_text(0), "0");
    assert_eq!(decimal_text(7), "7");
    assert_eq!(decimal_text(10), "10");
    assert_eq!(decimal_text(332), "332");
    assert_eq!(decimal_text(1234567890), "1234567890");
    assert_eq!(decimal_text(usize::MAX), usize::MAX.to_string());
    for n in 0..2000 {
        assert_eq!(decimal_text(n), n.to_string());
    }
}

#[test]
fn align_right_fills_the_left_with_spaces() {
    assert_eq!(align_right("ab", 5), "   ab");
    assert_eq!(align_right("abcde", 5), "abcde");
    assert_eq!(align_right("abcdef", 5), "abcdef");
    assert_eq!(align_right("", 3), "   ");
    assert_eq!(align_right("", 0), "");
    assert_eq!(align_right("\u{e9}t\u{e9}", 5), "  \u{e9}t\u{e9}");
    assert_eq!(align_right("(x)", 80), format!("{: >80}", "(x)"));
}

#[test]
fn center_gives_the_right_side_the_odd_space() {
    assert_eq!(center("Act", 5, " "), " Act ");
    assert_eq!(center("Scene", 7, " "), " Scene ");
    assert_eq!(center("by", 19, " "), format!("{: ^19}", "by"));
    assert_eq!(center("ab", 5, " "), " ab  ");
    assert_eq!(center("", 19, "-"), "-------------------");
    assert_eq!(center("KING LEAR", 19, " "), "     KING LEAR     ");
    assert_eq!(center("too long for it", 4, " "), "too long for it");
    assert_eq!(center("12", 7, " "), format!("{: ^7}", 12));
}

#[test]
fn entries_follow_the_table_of_contents() {
    assert_eq!(entry_at(0), SceneEntry { act: 1, scene: 1, lines: 332 });
    assert_eq!(entry_at(4), SceneEntry { act: 1, scene: 5, lines: 48 });
    assert_eq!(entry_at(5), SceneEntry { act: 2, scene: 1, lines: 141 });
    assert_eq!(entry_at(8), SceneEntry { act: 2, scene: 4, lines: 339 });
    assert_eq!(entry_at(9), SceneEntry { act: 3, scene: 1, lines: 58 });
    assert_eq!(entry_at(15), SceneEntry { act: 3, scene: 7, lines: 118 });
    assert_eq!(entry_at(16), SceneEntry { act: 4, scene: 1, lines: 90 });
    assert_eq!(entry_at(22), SceneEntry { act: 4, scene: 7, lines: 110 });
    assert_eq!(entry_at(23), SceneEntry { act: 5, scene: 1, lines: 78 });
    assert_eq!(entry_at(25), SceneEntry { act: 5, scene: 3, lines: 386 });
    for i in 0..26 {
        let e = entry_at(i);
        assert_eq!(lear::resolve(e.act, e.scene).unwrap(), i);
    }
}

#[test]
fn contents_is_the_title_and_a_row_for_each_scene() {
    let rows: [(&str, usize, usize); 26] = [
        ("1", 1, 332),
        ("", 2, 191),
        ("", 3, 27),
        ("", 4, 352),
        ("", 5, 48),
        ("2", 1, 141),
        ("", 2, 177),
        ("", 3, 21),
        ("", 4, 339),
        ("3", 1, 58),
        ("", 2, 100),
        ("", 3, 25),
        ("", 4, 187),
        ("", 5, 25),
        ("", 6, 117),
        ("", 7, 118),
        ("4", 1, 90),
        ("", 2, 111),
        ("", 3, 62),
        ("", 4, 32),
        ("", 5, 45),
        ("", 6, 314),
        ("", 7, 110),
        ("5", 1, 78),
        ("", 2, 13),
        ("", 3, 386),
    ];
    let mut expected = String::new();
    expected += &format!("{}{: ^19}{}\n", ITALIC, "The Tragedie of", RESET);
    expected += &format!("{: ^19}\n\n", "KING LEAR");
    expected += &format!("{: ^19}\n\n", "by");
    expected += &format!("{}{: ^19}{}\n", ITALIC, "William", ITALIC);
    expected += &format!("{}{: ^19}{}\n\n", ITALIC, "Shakespeare", ITALIC);
    expected += &format!("{}{: ^5}{: ^7}{: ^7}{}\n", BOLD, "Act", "Scene", "Lines", RESET);
    for (act, scene, lines) in rows.iter() {
        if !act.is_empty() {
            expected += &format!("{:-^19}\n", "");
        }
        expected += &format!("{: ^5}{: ^7}{: ^7}\n", act, scene, lines);
    }
    assert_eq!(contents_text(), expected);
}
