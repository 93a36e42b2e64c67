use polyrhythm::keys::MouseButton;
use polyrhythm::osu::{
    judge, judgement_shown, Accuracy, ClickResponse, HitCircle, OsuGame, HIT_CIRCLE_RADIUS, SCREEN_HEIGHT, SCREEN_WIDTH,
    SPAWN_MARGIN,
};

#[test]
fn osu_judgement_tiers() {
    assert_eq!(judge(0), Accuracy::Hit300);
    assert_eq!(judge(50), Accuracy::Hit300);
    assert_eq!(judge(51), Accuracy::Hit100);
    assert_eq!(judge(150), Accuracy::Hit50);
    assert_eq!(judge(151), Accuracy::Miss);
    assert_eq!(Accuracy::Hit100.points(), 100);
    assert_eq!(Accuracy::Miss.label(), "MISS");
}

#[test]
fn osu_approach_circle_shrinks() {
    let c = HitCircle::new(400_000, 300_000, 1_000);
    assert_eq!(c.radius, HIT_CIRCLE_RADIUS);
    assert_eq!(c.approach_circle_radius(1_000), 150_000);
    assert_eq!(c.approach_circle_radius(1_500), 107_000);
    assert_eq!(c.approach_circle_radius(2_000), 64_000);
    assert_eq!(c.approach_circle_radius(9_000), 64_000);
    // A clock reading before the circle appeared counts as no time at all.
    assert_eq!(c.approach_circle_radius(500), 150_000);
}

#[test]
fn osu_expiry() {
    let c = HitCircle::new(0, 0, 100);
    assert!(!c.is_expired(1_500));
    assert!(c.is_expired(1_501));
}

#[test]
fn osu_click_inside_and_outside() {
    let c = HitCircle::new(400_000, 300_000, 0);
    assert_eq!(c.check_click(400_000, 300_000, 1_000), Some(Accuracy::Hit300));
    assert_eq!(c.check_click(400_000 + 64_000, 300_000, 1_030), Some(Accuracy::Hit300));
    assert_eq!(c.check_click(400_000 + 45_254, 300_000 + 45_254, 1_000), Some(Accuracy::Hit300));
    assert_eq!(c.check_click(400_000 + 45_255, 300_000 + 45_255, 1_000), None);
    assert_eq!(c.check_click(400_000 + 64_001, 300_000, 1_000), None);
    assert_eq!(c.check_click(400_000, 300_000, 900), Some(Accuracy::Hit100));
    assert_eq!(c.check_click(400_000, 300_000, 1_150), Some(Accuracy::Hit50));
    assert_eq!(c.check_click(400_000, 300_000, 200), Some(Accuracy::Miss));
    assert_eq!(c.check_click(400_000, 300_000, 1_401), None);
    assert_eq!(c.check_click(i64::MIN, i64::MAX, 1_000), None);
}

#[test]
fn osu_click_scores_and_combo() {
    let mut game = OsuGame::new(0);
    game.spawn_circle_at(200_000, 200_000, 0);
    game.spawn_circle_at(600_000, 400_000, 0);
    assert_eq!(game.handle_click(600_000, 400_000, 1_080), Some(Accuracy::Hit100));
    assert_eq!(game.score, 100);
    assert_eq!(game.combo, 1);
    assert_eq!(game.circles[1].accuracy, Some(Accuracy::Hit100));
    assert!(game.circles[1].hit);
    assert_eq!(game.accuracy_display, Some(Accuracy::Hit100));
    assert_eq!(game.circles[0].accuracy, None);
    assert!(!game.circles[0].hit);
    // A judged circle takes no further click.
    assert_eq!(game.handle_click(600_000, 400_000, 1_000), None);
    assert_eq!(game.score, 100);
    assert_eq!(game.combo, 1);
    // A click on empty space changes nothing.
    game.combo = 3;
    assert_eq!(game.handle_click(10_000, 10_000, 1_000), None);
    assert_eq!(game.combo, 3);
    // A badly timed click on the other circle is a miss and breaks the combo.
    assert_eq!(game.handle_click(200_000, 200_000, 200), Some(Accuracy::Miss));
    assert_eq!(game.combo, 0);
    assert_eq!(game.accuracy_display, Some(Accuracy::Miss));
    // The next frame removes both judged circles.
    game.update_with(300, 0, 0);
    assert!(game.circles.is_empty());
}

#[test]
fn osu_judgement_shows_for_one_second() {
    assert_eq!(judgement_shown(Some(Accuracy::Hit50), 0), Some(Accuracy::Hit50));
    assert_eq!(judgement_shown(Some(Accuracy::Hit50), 999), Some(Accuracy::Hit50));
    assert_eq!(judgement_shown(Some(Accuracy::Hit50), 1_000), None);
    assert_eq!(judgement_shown(None, 10), None);
}

#[test]
fn osu_mouse_buttons() {
    let mut game = OsuGame::new(0);
    game.spawn_circle_at(200_000, 200_000, 0);
    assert_eq!(
        game.mouse_button_down_event(MouseButton::Left, 200_000, 200_000, 1_000),
        ClickResponse::Judged(Accuracy::Hit300)
    );
    assert_eq!(game.score, 300);
    assert_eq!(
        game.mouse_button_down_event(MouseButton::Right, 200_000, 200_000, 1_000),
        ClickResponse::Quit
    );
    assert_eq!(
        game.mouse_button_down_event(MouseButton::Left, 200_000, 200_000, 1_000),
        ClickResponse::Ignored
    );
    assert_eq!(
        game.mouse_button_down_event(MouseButton::Middle, 200_000, 200_000, 1_000),
        ClickResponse::Ignored
    );
    assert_eq!(game.score, 300);
}

#[test]
fn osu_frame_misses_and_expires() {
    let mut game = OsuGame::new(0);
    game.spawn_circle_at(200_000, 200_000, 0);
    game.spawn_circle_at(300_000, 200_000, 500);
    game.combo = 7;
    game.update_with(1_201, 0, 0);
    assert_eq!(game.circles.len(), 2);
    assert!(game.circles[0].missed);
    assert!(!game.circles[1].missed);
    assert_eq!(game.combo, 0);
    game.update_with(1_401, 0, 0);
    assert_eq!(game.circles.len(), 1);
    assert_eq!(game.circles[0].x, 300_000);
    assert_eq!(game.score, 0);
}

#[test]
fn osu_spawns_every_one_and_a_half_seconds() {
    let mut game = OsuGame::new(0);
    game.update_with(1_500, 1, 2);
    assert!(game.circles.is_empty());
    game.update_with(1_501, 100_000, 200_000);
    assert_eq!(game.circles.len(), 1);
    assert_eq!(game.circles[0].x, 100_000);
    assert_eq!(game.circles[0].spawn_time, 1_501);
    assert_eq!(game.last_spawn_time, 1_501);
}

#[test]
fn osu_random_circles_stay_inside_the_margins() {
    let mut game = OsuGame::new(0);
    for _ in 0..50 {
        game.spawn_circle(0);
    }
    for c in &game.circles {
        assert!(SPAWN_MARGIN <= c.x && c.x < SCREEN_WIDTH - SPAWN_MARGIN);
        assert!(SPAWN_MARGIN <= c.y && c.y < SCREEN_HEIGHT - SPAWN_MARGIN);
    }
    assert!(game.circles.iter().any(|c| c.x != SPAWN_MARGIN));
    assert!(game.circles.iter().any(|c| c.y != SPAWN_MARGIN));
    let mut later = OsuGame::new(0);
    later.update(2_000);
    assert_eq!(later.circles.len(), 1);
}
