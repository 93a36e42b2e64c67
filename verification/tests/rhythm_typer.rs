use polyrhythm::keys::Key;
use polyrhythm::rhythm_typer::{Accuracy, RhythmTyperGame, Word, MISS_Y, SPAWN_X_MAX, SPAWN_X_MIN, SPAWN_Y};

fn word(text: &str, y: i64) -> Word {
    let mut w = Word::new(text.to_string(), 300_000);
    w.y = y;
    w
}

#[test]
fn typer_new_game_has_pool() {
    let game = RhythmTyperGame::new();
    assert_eq!(game.word_pool.len(), 11);
    assert_eq!(game.word_pool[0], "rhythm");
    assert_eq!(game.word_pool[10], "flow");
    assert!(game.words.is_empty());
    assert_eq!(game.score, 0);
}

#[test]
fn typer_word_typing() {
    let mut w = Word::new("beat".to_string(), 250_000);
    assert_eq!(w.y, SPAWN_Y);
    assert!(!w.check_char('e'));
    assert!(w.check_char('b'));
    assert!(w.check_char('e'));
    assert!(w.check_char('a'));
    assert!(!w.completed);
    assert!(!w.is_fully_typed());
    assert!(w.check_char('t'));
    assert!(w.completed);
    assert!(w.is_fully_typed());
    assert!(!w.check_char('t'));
    assert_eq!(w.typed_chars, 4);
}

#[test]
fn typer_display_text_is_the_word() {
    let mut w = Word::new("groove".to_string(), 0);
    assert_eq!(w.get_display_text(), "groove");
    w.check_char('g');
    w.check_char('r');
    assert_eq!(w.get_display_text(), "groove");
}

#[test]
fn typer_non_ascii_word_never_completes() {
    let mut w = Word::new("é".to_string(), 0);
    assert!(w.check_char('é'));
    assert!(!w.completed);
    assert!(!w.check_char('é'));
}

#[test]
fn typer_expiry() {
    assert!(!word("sync", MISS_Y).is_expired());
    assert!(word("sync", MISS_Y + 1).is_expired());
    let mut w = word("sync", 0);
    w.missed = true;
    assert!(w.is_expired());
}

#[test]
fn typer_completing_word_scores() {
    let mut game = RhythmTyperGame::new();
    game.words.push(word("flow", 100_000));
    for c in ['f', 'l', 'o'] {
        game.handle_char_input(c);
        assert_eq!(game.score, 0);
        assert_eq!(game.combo, 0);
    }
    game.handle_char_input('w');
    assert!(game.words[0].completed);
    assert_eq!(game.combo, 1);
    assert_eq!(game.score, 40);
}

#[test]
fn typer_combo_bonus() {
    let mut game = RhythmTyperGame::new();
    game.combo = 4;
    game.words.push(word("tempo", 100_000));
    for c in "tempo".chars() {
        game.handle_char_input(c);
    }
    assert_eq!(game.combo, 5);
    assert_eq!(game.score, 50 + 5);
}

#[test]
fn typer_wrong_char_resets_combo() {
    let mut game = RhythmTyperGame::new();
    game.combo = 3;
    game.words.push(word("dance", 100_000));
    game.handle_char_input('x');
    assert_eq!(game.combo, 0);
    assert_eq!(game.words[0].typed_chars, 0);
}

#[test]
fn typer_first_taking_word_advances() {
    let mut game = RhythmTyperGame::new();
    game.words.push(word("music", 100_000));
    game.words.push(word("melody", 100_000));
    game.handle_char_input('m');
    assert_eq!(game.words[0].typed_chars, 1);
    assert_eq!(game.words[1].typed_chars, 0);
    game.handle_char_input('m');
    assert_eq!(game.words[0].typed_chars, 1);
    assert_eq!(game.words[1].typed_chars, 1);
}

#[test]
fn typer_keys() {
    let game = RhythmTyperGame::new();
    assert_eq!(game.get_char_from_key(Key::D), Some('d'));
    assert_eq!(game.get_char_from_key(Key::Z), Some('z'));
    assert_eq!(game.get_char_from_key(Key::Escape), None);
    assert_eq!(game.get_char_from_key(Key::Other), None);
    let mut game = RhythmTyperGame::new();
    game.words.push(word("beat", 0));
    assert!(!game.key_down_event(Key::B));
    assert_eq!(game.words[0].typed_chars, 1);
    game.current_input.push_str("be");
    assert!(!game.key_down_event(Key::Back));
    assert!(game.current_input.is_empty());
    assert!(game.key_down_event(Key::Escape));
}

#[test]
fn typer_frame_misses_and_removes() {
    let mut game = RhythmTyperGame::new();
    game.words.push(word("beat", 549_000));
    game.words.push(word("sync", 0));
    let mut done = word("flow", 200_000);
    done.completed = true;
    game.words.push(done);
    game.combo = 6;
    // 20 milliseconds: 2 pixels.
    game.update_with(20_000, 0, SPAWN_X_MIN);
    assert_eq!(game.combo, 0);
    assert_eq!(game.words.len(), 2);
    assert_eq!(game.words[0].text, "sync");
    assert_eq!(game.words[0].y, 2_000);
    // A completed word stays where it was.
    assert_eq!(game.words[1].text, "flow");
    assert_eq!(game.words[1].y, 200_000);
}

#[test]
fn typer_spawns_every_two_seconds() {
    let mut game = RhythmTyperGame::new();
    game.update_with(2_000_000, 3, 400_000);
    assert!(game.words.is_empty());
    game.update_with(1, 14, 400_000);
    assert_eq!(game.words.len(), 1);
    assert_eq!(game.words[0].text, "tempo");
    assert_eq!(game.words[0].x, 400_000);
    let mut random = RhythmTyperGame::new();
    for _ in 0..20 {
        random.spawn_word();
    }
    for w in &random.words {
        assert!(SPAWN_X_MIN <= w.x && w.x < SPAWN_X_MAX);
        assert!(random.word_pool.contains(&w.text));
    }
    assert_eq!(Accuracy::Hit320.label(), "320!");
}

#[test]
fn typer_judgement_shows_for_one_second() {
    assert_eq!(polyrhythm::rhythm_typer::judgement_shown(Some(Accuracy::Hit320), 999), Some(Accuracy::Hit320));
    assert_eq!(polyrhythm::rhythm_typer::judgement_shown(Some(Accuracy::Hit320), 1_000), None);
    assert_eq!(polyrhythm::rhythm_typer::judgement_shown(None, 0), None);
}
