use polyrhythm::keys::Key;
use polyrhythm::palette::Palette;
use polyrhythm::taiko::{
    judge, note_type_from_roll, Accuracy, KeyResponse, Note, NoteType, TaikoGame, HIT_LINE_X,
    NOTE_Y, SPAWN_X,
};

fn note_at(note_type: NoteType, x: i64) -> Note {
    Note { note_type, x, y: NOTE_Y, hit: false, accuracy: None }
}

#[test]
fn taiko_note_kinds() {
    assert_eq!(NoteType::Don.color(), Palette::Red);
    assert_eq!(NoteType::BigKat.color(), Palette::Blue);
    assert!(NoteType::BigDon.is_big());
    assert!(!NoteType::Kat.is_big());
    assert_eq!(NoteType::BigKat.size(), 80_000);
    assert_eq!(NoteType::Don.size(), 60_000);
    assert_eq!(NoteType::BigDon.keys(), (Key::D, Key::F));
    assert_eq!(NoteType::Kat.keys(), (Key::J, Key::K));
    assert_eq!(note_type_from_roll(2), NoteType::BigDon);
    assert_eq!(note_type_from_roll(5), NoteType::Kat);
}

#[test]
fn taiko_judgement_tiers() {
    assert_eq!(judge(20_000), Accuracy::Hit300);
    assert_eq!(judge(20_001), Accuracy::Hit100);
    assert_eq!(judge(50_000), Accuracy::Hit100);
    assert_eq!(judge(100_000), Accuracy::Hit50);
    assert_eq!(judge(100_001), Accuracy::Miss);
    assert_eq!(Accuracy::Hit300.points(), 300);
    assert_eq!(Accuracy::Hit300.label(), "300!");
    assert_eq!(Accuracy::Hit50.tint(), Palette::LightGreen);
}

#[test]
fn taiko_don_is_hit_with_d_or_f_only() {
    let mut game = TaikoGame::new();
    game.notes.push(note_at(NoteType::Don, HIT_LINE_X + 10_000));
    assert_eq!(game.key_down_event(Key::J), KeyResponse::Ignored);
    assert_eq!(game.key_down_event(Key::K), KeyResponse::Ignored);
    assert!(!game.notes[0].hit);
    assert_eq!(game.key_down_event(Key::F), KeyResponse::Judged(Accuracy::Hit300));
    assert!(game.notes[0].hit);
    assert_eq!(game.score, 300);
    assert_eq!(game.combo, 1);
    assert_eq!(game.accuracy_display, Some(Accuracy::Hit300));
}

#[test]
fn taiko_kat_in_window_scores_100() {
    let mut game = TaikoGame::new();
    game.notes.push(note_at(NoteType::BigKat, HIT_LINE_X - 40_000));
    assert_eq!(game.check_hit(Key::J), Some(Accuracy::Hit100));
    assert_eq!(game.score, 100);
    assert_eq!(game.check_hit(Key::J), None);
    assert_eq!(game.score, 100);
}

#[test]
fn taiko_escape_quits() {
    let mut game = TaikoGame::new();
    assert_eq!(game.key_down_event(Key::Escape), KeyResponse::Quit);
    assert_eq!(game.key_down_event(Key::L), KeyResponse::Ignored);
}

#[test]
fn taiko_notes_move_left_and_leave() {
    let mut game = TaikoGame::new();
    game.spawn_note(NoteType::Kat);
    assert_eq!(game.notes[0].x, SPAWN_X);
    game.notes.push(note_at(NoteType::Don, -90_000));
    // 100 milliseconds: 40 pixels.
    game.update_with(100_000, 0);
    assert_eq!(game.notes.len(), 1);
    assert_eq!(game.notes[0].x, SPAWN_X - 40_000);
    assert_eq!(game.last_spawn_time, 100_000);
}

#[test]
fn taiko_spawn_after_eight_tenths_of_a_second() {
    let mut game = TaikoGame::new();
    game.update_with(800_000, 3);
    assert!(game.notes.is_empty());
    game.update_with(1, 3);
    assert_eq!(game.notes.len(), 1);
    assert_eq!(game.notes[0].note_type, NoteType::BigKat);
    assert_eq!(game.last_spawn_time, 0);
    let mut random = TaikoGame::new();
    random.update(900_000);
    assert_eq!(random.notes.len(), 1);
    assert_eq!(random.notes[0].x, SPAWN_X);
}

#[test]
fn taiko_judgement_shows_for_one_second() {
    assert_eq!(polyrhythm::taiko::judgement_shown(Some(Accuracy::Hit300), 999), Some(Accuracy::Hit300));
    assert_eq!(polyrhythm::taiko::judgement_shown(Some(Accuracy::Hit300), 1_000), None);
    assert_eq!(polyrhythm::taiko::judgement_shown(None, 0), None);
}
