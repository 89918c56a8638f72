use lear::window::{MAX_WINDOW, MIN_WINDOW};
use lear::{blocks_to_show, random_window, window, Block, Corpus, Dialogue, Line};

fn turn(n: usize) -> Block {
    Block::Dialogue(Dialogue {
        character: format!("VOICE {}", n),
        lines: vec![Line::Text(format!("word {}", n))],
        act: 1,
        scene: 1,
        start: n,
        stop: n,
    })
}

fn turns(count: usize) -> Vec<Block> {
    (1..=count).map(turn).collect()
}

fn is_run_of(scene: &[Block], passage: &[Block]) -> bool {
    passage.len() <= scene.len()
        && (0..=scene.len() - passage.len()).any(|s| &scene[s..s + passage.len()] == passage)
}

#[test]
fn window_is_the_blocks_from_start() {
    let scene = turns(6);
    assert_eq!(window(&scene, 1, 2), vec![turn(2), turn(3)]);
    assert_eq!(window(&scene, 0, 6), scene);
    assert_eq!(window(&scene, 4, 2), vec![turn(5), turn(6)]);
    assert_eq!(window(&scene, 6, 0), Vec::new());
    assert_eq!(window(&scene, 4, 5), vec![turn(5), turn(6)]);
    assert_eq!(window(&scene, 9, 2), Vec::new());
    assert_eq!(window(&scene, 0, usize::MAX), scene);
    assert_eq!(window(&scene, usize::MAX, usize::MAX), Vec::new());
}

#[test]
fn window_limits() {
    assert_eq!(MIN_WINDOW, 2);
    assert_eq!(MAX_WINDOW, 5);
}

#[test]
fn random_window_has_two_to_five_blocks_in_a_row() {
    let mut rng = rand::thread_rng();
    let scene = turns(9);
    for _ in 0..200 {
        let got = random_window(&mut rng, &scene);
        assert!(2 <= got.len() && got.len() <= 5);
        assert!(is_run_of(&scene, &got));
    }
}

#[test]
fn random_window_of_a_short_scene_stays_within_it() {
    let mut rng = rand::thread_rng();
    let three = turns(3);
    for _ in 0..100 {
        let got = random_window(&mut rng, &three);
        assert!(2 <= got.len() && got.len() <= 3);
        assert!(is_run_of(&three, &got));
    }
    let two = turns(2);
    for _ in 0..20 {
        assert_eq!(random_window(&mut rng, &two), two);
    }
}

#[test]
fn random_window_reaches_both_ends_of_the_scene() {
    let mut rng = rand::thread_rng();
    let scene = turns(4);
    let mut first = false;
    let mut last = false;
    let mut widths = [false; 6];
    for _ in 0..2000 {
        let got = random_window(&mut rng, &scene);
        first = first || got[0] == scene[0];
        last = last || got[got.len() - 1] == scene[3];
        widths[got.len()] = true;
    }
    assert!(first && last);
    assert_eq!(widths, [false, false, true, true, true, false]);
}

#[test]
fn blocks_to_show_is_a_passage_of_one_scene() {
    let mut rng = rand::thread_rng();
    let scenes: Vec<Vec<Block>> = (0..26).map(|i| turns(2 + i % 7)).collect();
    let play = Corpus::new(scenes.clone()).unwrap();
    assert!(play.is_windowable());
    for _ in 0..200 {
        let got = blocks_to_show(&mut rng, &play);
        assert!(2 <= got.len() && got.len() <= 5);
        assert!(scenes.iter().any(|s| is_run_of(s, &got)));
    }
}

#[test]
fn random_scene_is_one_of_the_corpus() {
    let mut rng = rand::thread_rng();
    let scenes: Vec<Vec<Block>> = (0..26).map(|i| vec![turn(i), turn(i + 100)]).collect();
    let play = Corpus::new(scenes.clone()).unwrap();
    let mut seen = [false; 26];
    for _ in 0..5000 {
        let got = play.random_scene(&mut rng);
        let at = scenes.iter().position(|s| s == got).unwrap();
        seen[at] = true;
    }
    assert!(seen.iter().all(|s| *s));
}
