use polyrhythm::keys::Key;
use polyrhythm::palette::Palette;
use polyrhythm::stepmania::{
    direction_from_roll, judge, Accuracy, Arrow, ArrowDirection, KeyResponse, StepmaniaGame,
    HIT_LINE_Y, SPAWN_Y,
};

fn arrow_at(direction: ArrowDirection, y: i64) -> Arrow {
    Arrow { direction, y, hit: false, accuracy: None }
}

#[test]
fn stepmania_new_game_is_empty() {
    let game = StepmaniaGame::new();
    assert!(game.arrows.is_empty());
    assert_eq!(game.score, 0);
    assert_eq!(game.combo, 0);
    assert_eq!(game.last_spawn_time, 0);
    assert_eq!(game.accuracy_display, None);
}

#[test]
fn stepmania_judgement_tiers() {
    assert_eq!(judge(0), Accuracy::Hit320);
    assert_eq!(judge(10_000), Accuracy::Hit320);
    assert_eq!(judge(10_001), Accuracy::Hit300);
    assert_eq!(judge(20_000), Accuracy::Hit300);
    assert_eq!(judge(40_000), Accuracy::Hit200);
    assert_eq!(judge(60_000), Accuracy::Hit150);
    assert_eq!(judge(80_000), Accuracy::Hit100);
    assert_eq!(judge(100_000), Accuracy::Hit50);
    assert_eq!(judge(100_001), Accuracy::Miss);
    assert_eq!(Accuracy::Hit320.points(), 320);
    assert_eq!(Accuracy::Hit150.points(), 150);
    assert_eq!(Accuracy::Miss.points(), 0);
}

#[test]
fn stepmania_closer_press_scores_no_less() {
    let mut last = i32::MAX;
    for d in (0..=120_000).step_by(500) {
        let p = judge(d).points();
        assert!(p <= last);
        last = p;
    }
}

#[test]
fn stepmania_labels_and_tints() {
    assert_eq!(Accuracy::Hit320.label(), "320!");
    assert_eq!(Accuracy::Hit300.label(), "300");
    assert_eq!(Accuracy::Miss.label(), "MISS");
    assert_eq!(Accuracy::Hit200.tint(), Palette::Amber);
    assert_eq!(Accuracy::Hit320.tint(), Palette::Gold);
    assert_eq!(Accuracy::Miss.tint(), Palette::MissRed);
}

#[test]
fn stepmania_lanes() {
    assert_eq!(ArrowDirection::Left.key_code(), Key::D);
    assert_eq!(ArrowDirection::Right.key_code(), Key::K);
    assert_eq!(ArrowDirection::Down.lane_x(), 300_000);
    assert_eq!(ArrowDirection::Up.color(), Palette::Green);
    assert_eq!(direction_from_roll(0), ArrowDirection::Left);
    assert_eq!(direction_from_roll(6), ArrowDirection::Up);
    assert_eq!(direction_from_roll(7), ArrowDirection::Right);
}

#[test]
fn stepmania_each_key_plays_its_lane() {
    for d in [ArrowDirection::Left, ArrowDirection::Down, ArrowDirection::Up, ArrowDirection::Right] {
        let mut game = StepmaniaGame::new();
        game.arrows.push(arrow_at(d, HIT_LINE_Y));
        let response = game.key_down_event(d.key_code());
        assert_eq!(response, KeyResponse::Judged(Accuracy::Hit320));
        assert!(game.arrows[0].hit);
    }
}

#[test]
fn stepmania_hit_on_line_scores_320() {
    let mut game = StepmaniaGame::new();
    game.spawn_arrow(ArrowDirection::Left);
    assert_eq!(game.arrows[0].y, SPAWN_Y);
    // 550 pixels at 300 pixels per second.
    game.update_with(1_833_334, 1);
    assert_eq!(game.arrows[0].y, HIT_LINE_Y);
    // One second had passed, so an arrow appeared in lane Down.
    assert_eq!(game.arrows.len(), 2);
    assert_eq!(game.arrows[1].direction, ArrowDirection::Down);
    assert_eq!(game.check_hit(ArrowDirection::Left), Some(Accuracy::Hit320));
    assert_eq!(game.score, 320);
    assert_eq!(game.combo, 1);
    assert_eq!(game.accuracy_display, Some(Accuracy::Hit320));
    assert!(game.arrows[0].hit);
    assert_eq!(game.arrows[0].accuracy, Some(Accuracy::Hit320));
}

#[test]
fn stepmania_press_outside_window_does_nothing() {
    let mut game = StepmaniaGame::new();
    game.arrows.push(arrow_at(ArrowDirection::Up, HIT_LINE_Y - 50_001));
    game.combo = 4;
    assert_eq!(game.key_down_event(Key::J), KeyResponse::Ignored);
    assert_eq!(game.combo, 4);
    assert_eq!(game.score, 0);
    assert!(!game.arrows[0].hit);
}

#[test]
fn stepmania_window_edge_is_hit150() {
    let mut game = StepmaniaGame::new();
    game.arrows.push(arrow_at(ArrowDirection::Up, HIT_LINE_Y + 50_000));
    assert_eq!(game.check_hit(ArrowDirection::Up), Some(Accuracy::Hit150));
    assert_eq!(game.score, 150);
}

#[test]
fn stepmania_first_arrow_in_lane_is_judged_once() {
    let mut game = StepmaniaGame::new();
    game.arrows.push(arrow_at(ArrowDirection::Down, HIT_LINE_Y + 30_000));
    game.arrows.push(arrow_at(ArrowDirection::Left, HIT_LINE_Y));
    game.arrows.push(arrow_at(ArrowDirection::Left, HIT_LINE_Y + 15_000));
    assert_eq!(game.check_hit(ArrowDirection::Left), Some(Accuracy::Hit320));
    assert!(game.arrows[1].hit);
    assert!(!game.arrows[2].hit);
    assert_eq!(game.check_hit(ArrowDirection::Left), Some(Accuracy::Hit300));
    assert!(game.arrows[2].hit);
    assert_eq!(game.check_hit(ArrowDirection::Left), None);
    assert_eq!(game.score, 620);
    assert_eq!(game.combo, 2);
}

#[test]
fn stepmania_escape_quits_and_other_keys_are_ignored() {
    let mut game = StepmaniaGame::new();
    assert_eq!(game.key_down_event(Key::Escape), KeyResponse::Quit);
    assert_eq!(game.key_down_event(Key::A), KeyResponse::Ignored);
    assert_eq!(game.key_down_event(Key::L), KeyResponse::Ignored);
}

#[test]
fn stepmania_frame_removes_judged_and_fallen_arrows() {
    let mut game = StepmaniaGame::new();
    game.arrows.push(Arrow { direction: ArrowDirection::Left, y: 100_000, hit: true, accuracy: Some(Accuracy::Hit50) });
    game.arrows.push(arrow_at(ArrowDirection::Down, 640_000));
    game.arrows.push(arrow_at(ArrowDirection::Up, 0));
    game.score = 77;
    game.combo = 3;
    // 50 milliseconds: 15 pixels.
    game.update_with(50_000, 0);
    assert_eq!(game.arrows.len(), 1);
    assert_eq!(game.arrows[0].direction, ArrowDirection::Up);
    assert_eq!(game.arrows[0].y, 15_000);
    assert_eq!(game.score, 77);
    assert_eq!(game.combo, 3);
    assert_eq!(game.last_spawn_time, 50_000);
}

#[test]
fn stepmania_spawn_after_more_than_a_second() {
    let mut game = StepmaniaGame::new();
    game.update_with(1_000_000, 3);
    assert!(game.arrows.is_empty());
    assert_eq!(game.last_spawn_time, 1_000_000);
    game.update_with(1, 3);
    assert_eq!(game.arrows.len(), 1);
    assert_eq!(game.arrows[0].direction, ArrowDirection::Right);
    assert_eq!(game.arrows[0].y, SPAWN_Y);
    assert_eq!(game.last_spawn_time, 0);
}

#[test]
fn stepmania_random_update_spawns_one_arrow() {
    let mut game = StepmaniaGame::new();
    game.update(1_500_000);
    assert_eq!(game.arrows.len(), 1);
    assert_eq!(game.arrows[0].y, SPAWN_Y);
    assert!(!game.arrows[0].hit);
}

#[test]
fn stepmania_judgement_shows_for_one_second() {
    assert_eq!(polyrhythm::stepmania::judgement_shown(Some(Accuracy::Hit320), 999), Some(Accuracy::Hit320));
    assert_eq!(polyrhythm::stepmania::judgement_shown(Some(Accuracy::Hit320), 1_000), None);
    assert_eq!(polyrhythm::stepmania::judgement_shown(None, 0), None);
}
