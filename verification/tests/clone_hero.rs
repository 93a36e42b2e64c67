use polyrhythm::clone_hero::{
    fret_from_roll, single_note_points, CloneHeroGame, FretColor, Note, NoteType, HIT_LINE_Y,
    MAX_HOLD_LENGTH, MIN_HOLD_LENGTH, SPAWN_Y,
};
use polyrhythm::keys::Key;
use polyrhythm::palette::Palette;

fn single_at(color: FretColor, y: i64) -> Note {
    Note { note_type: NoteType::Single { color }, y, hit: false, missed: false, hold_start_hit: false }
}

fn hold_at(color: FretColor, y: i64) -> Note {
    Note {
        note_type: NoteType::Hold { color, duration: 150_000 },
        y,
        hit: false,
        missed: false,
        hold_start_hit: false,
    }
}

#[test]
fn clone_hero_frets() {
    assert_eq!(FretColor::Green.key_code(), Key::D);
    assert_eq!(FretColor::Orange.key_code(), Key::L);
    assert_eq!(FretColor::Yellow.lane_x(), 360_000);
    assert_eq!(FretColor::Orange.color(), Palette::Orange);
    assert_eq!(FretColor::Blue.index(), 3);
    assert_eq!(fret_from_roll(9), FretColor::Orange);
    assert_eq!(fret_from_roll(5), FretColor::Green);
}

#[test]
fn clone_hero_single_points() {
    assert_eq!(single_note_points(0), 100);
    assert_eq!(single_note_points(19_999), 100);
    assert_eq!(single_note_points(20_000), 50);
    assert_eq!(single_note_points(34_999), 50);
    assert_eq!(single_note_points(35_000), 25);
}

#[test]
fn clone_hero_strike_single_note() {
    let mut game = CloneHeroGame::new();
    game.notes.push(single_at(FretColor::Red, HIT_LINE_Y - 25_000));
    assert!(!game.key_down_event(Key::F));
    assert!(game.pressed_frets[1]);
    assert!(game.notes[0].hit);
    assert_eq!(game.score, 50);
    assert_eq!(game.combo, 1);
    game.key_up_event(Key::F);
    assert!(!game.pressed_frets[1]);
}

#[test]
fn clone_hero_window_is_strict() {
    let mut game = CloneHeroGame::new();
    game.notes.push(single_at(FretColor::Green, HIT_LINE_Y + 50_000));
    game.check_hit(FretColor::Green);
    assert!(!game.notes[0].hit);
    assert_eq!(game.score, 0);
}

#[test]
fn clone_hero_wrong_fret_skips_to_matching_note() {
    let mut game = CloneHeroGame::new();
    game.notes.push(single_at(FretColor::Blue, HIT_LINE_Y));
    game.notes.push(single_at(FretColor::Green, HIT_LINE_Y + 10_000));
    game.check_hit(FretColor::Green);
    assert!(!game.notes[0].hit);
    assert!(game.notes[1].hit);
    assert_eq!(game.score, 100);
}

#[test]
fn clone_hero_hold_note_release_breaks_combo() {
    let mut game = CloneHeroGame::new();
    game.notes.push(hold_at(FretColor::Yellow, HIT_LINE_Y));
    game.key_down_event(Key::J);
    assert!(game.notes[0].hold_start_hit);
    assert!(!game.notes[0].hit);
    assert_eq!(game.score, 50);
    assert_eq!(game.combo, 1);
    // Striking again does not play the same hold note.
    game.check_hit(FretColor::Yellow);
    assert_eq!(game.score, 50);
    // Held: nothing happens.
    game.update_hold_notes();
    assert!(!game.notes[0].hit);
    assert_eq!(game.combo, 1);
    game.key_up_event(Key::J);
    game.update_hold_notes();
    assert!(game.notes[0].hit);
    assert_eq!(game.combo, 0);
}

#[test]
fn clone_hero_missed_note_breaks_combo_and_stays() {
    let mut game = CloneHeroGame::new();
    game.notes.push(single_at(FretColor::Green, 549_000));
    game.combo = 5;
    // 10 milliseconds: 3 pixels, past the miss height.
    game.update_with(10_000, 0, 0, MIN_HOLD_LENGTH);
    assert_eq!(game.combo, 0);
    assert_eq!(game.notes.len(), 1);
    assert!(game.notes[0].missed);
    assert_eq!(game.notes[0].y, 552_000);
    // A missed note no longer falls.
    game.update_with(10_000, 0, 0, MIN_HOLD_LENGTH);
    assert_eq!(game.notes[0].y, 552_000);
}

#[test]
fn clone_hero_spawns_single_or_hold() {
    let mut game = CloneHeroGame::new();
    game.update_with(1_000_001, 2, 6, 120_000);
    assert_eq!(game.notes.len(), 1);
    assert_eq!(game.notes[0].note_type, NoteType::Single { color: FretColor::Yellow });
    assert_eq!(game.notes[0].y, SPAWN_Y);
    game.update_with(1_000_001, 4, 7, 120_000);
    assert_eq!(game.notes.len(), 2);
    assert_eq!(game.notes[1].note_type, NoteType::Hold { color: FretColor::Orange, duration: 120_000 });
}

#[test]
fn clone_hero_random_spawn_is_in_range() {
    for _ in 0..50 {
        let mut game = CloneHeroGame::new();
        game.update(1_000_001);
        assert_eq!(game.notes.len(), 1);
        if let NoteType::Hold { duration, .. } = game.notes[0].note_type {
            assert!(MIN_HOLD_LENGTH <= duration && duration < MAX_HOLD_LENGTH);
        }
    }
}

#[test]
fn clone_hero_escape_quits() {
    let mut game = CloneHeroGame::new();
    assert!(game.key_down_event(Key::Escape));
    assert!(!game.key_down_event(Key::A));
    assert_eq!(game.pressed_frets, [false; 5]);
}
